//! Several buffers shown in one editor, piece by piece.

use std::ops::Range;
use vstd::prelude::*;

use crate::language::{Buffer, has_remote_id};
use crate::lookup::{first_where, lemma_first_where_absent, lemma_first_where_found};
use crate::text;
use crate::text::BufferId;

verus! {

/// The identity of an excerpt: one piece of a buffer that the editor shows.
#[derive(Clone, Copy, Debug, PartialEq, Eq, Structural)]
pub struct ExcerptId {
    pub raw: u64,
}

/// A position in one excerpt of a buffer.
#[derive(Clone, Copy, Debug, PartialEq, Eq, Structural)]
pub struct Anchor {
    pub excerpt_id: ExcerptId,
    pub text_anchor: text::Anchor,
}

/// The range `range` of a buffer, as a range of the excerpt `excerpt_id`.
pub open spec fn excerpt_range(excerpt_id: ExcerptId, range: Range<text::Anchor>) -> Range<Anchor> {
    Range {
        start: Anchor { excerpt_id, text_anchor: range.start },
        end: Anchor { excerpt_id, text_anchor: range.end },
    }
}

impl Anchor {
    /// Makes a range of the excerpt `excerpt_id` out of a range of its buffer.
    pub fn range_in_buffer(excerpt_id: ExcerptId, range: &Range<text::Anchor>) -> (result: Range<
        Anchor,
    >)
        ensures
            result == excerpt_range(excerpt_id, *range),
    {
        Range {
            start: Anchor { excerpt_id, text_anchor: range.start },
            end: Anchor { excerpt_id, text_anchor: range.end },
        }
    }
}

/// An excerpt and the buffer that it is a piece of.
#[derive(Clone, Copy, Debug, PartialEq, Eq, Structural)]
pub struct Excerpt {
    pub id: ExcerptId,
    pub buffer_id: BufferId,
}

/// A range of positions, and the excerpt that contains it.
#[derive(Debug)]
pub struct LocatedRange {
    pub range: Range<Anchor>,
    pub excerpt: Excerpt,
}

/// One state of a multi-buffer, as far as it is known where ranges of positions lie.
///
/// A range that is not listed lies in no single excerpt.
#[derive(Debug)]
pub struct MultiBufferSnapshot {
    pub located: Vec<LocatedRange>,
}

/// The condition that a located range is the one from `start` to `end`.
pub open spec fn spans(start: Anchor, end: Anchor) -> spec_fn(LocatedRange) -> bool {
    |located: LocatedRange| located.range.start == start && located.range.end == end
}

impl MultiBufferSnapshot {
    /// The excerpt that contains the range from `start` to `end`, if one does.
    pub open spec fn excerpt_at(self, start: Anchor, end: Anchor) -> Option<Excerpt> {
        match first_where(self.located@, spans(start, end)) {
            Some(located) => Some(located.excerpt),
            None => None,
        }
    }

    /// Finds the excerpt that contains `range`, if one does.
    pub fn excerpt_containing(&self, range: Range<Anchor>) -> (result: Option<Excerpt>)
        ensures
            result == self.excerpt_at(range.start, range.end),
    {
        let ghost wanted = spans(range.start, range.end);
        let mut i: usize = 0;
        while i < self.located.len()
            invariant
                i <= self.located.len(),
                wanted == spans(range.start, range.end),
                forall|j: int| 0 <= j < i ==> !wanted(#[trigger] self.located@[j]),
            decreases self.located.len() - i,
        {
            let located = &self.located[i];
            if located.range.start == range.start && located.range.end == range.end {
                proof {
                    lemma_first_where_found(self.located@, wanted, i as int);
                }
                return Some(located.excerpt);
            }
            i += 1;
        }
        proof {
            lemma_first_where_absent(self.located@, wanted);
        }
        None
    }
}

/// The buffers that an editor shows.
#[derive(Debug)]
pub struct MultiBuffer {
    pub buffers: Vec<Buffer>,
}

impl MultiBuffer {
    /// The first buffer with the identity `id`, if there is one.
    pub open spec fn buffer_with(self, id: BufferId) -> Option<Buffer> {
        first_where(self.buffers@, has_remote_id(id))
    }

    /// Finds the buffer with the identity `id`.
    pub fn buffer(&self, id: BufferId) -> (result: Option<&Buffer>)
        ensures
            match result {
                Some(buffer) => self.buffer_with(id) == Some(*buffer),
                None => self.buffer_with(id) is None,
            },
    {
        let ghost wanted = has_remote_id(id);
        let mut i: usize = 0;
        while i < self.buffers.len()
            invariant
                i <= self.buffers.len(),
                wanted == has_remote_id(id),
                forall|j: int| 0 <= j < i ==> !wanted(#[trigger] self.buffers@[j]),
            decreases self.buffers.len() - i,
        {
            if self.buffers[i].handle.remote_id == id {
                proof {
                    lemma_first_where_found(self.buffers@, wanted, i as int);
                }
                return Some(&self.buffers[i]);
            }
            i += 1;
        }
        proof {
            lemma_first_where_absent(self.buffers@, wanted);
        }
        None
    }
}

} // verus!
