//! The entries of a document's outline.

use std::ops::Range;
use vstd::prelude::*;

use crate::multi_buffer::{Anchor, ExcerptId, excerpt_range};
use crate::text;
use crate::text::BufferSnapshot;

verus! {

/// A style for a piece of an outline entry's text.
#[derive(Clone, Copy, Debug, PartialEq, Eq, Structural)]
pub struct HighlightStyle {
    pub id: u64,
}

/// An entry of an outline, with positions of type `T`.
#[derive(Debug, PartialEq)]
pub struct OutlineItem<T> {
    /// How many entries this one is nested in.
    pub depth: usize,
    /// What the entry covers.
    pub range: Range<T>,
    /// Where the entry's text was taken from.
    pub source_range_for_text: Range<T>,
    /// What the entry reads.
    pub text: String,
    /// The styles of pieces of `text`.
    pub highlight_ranges: Vec<(Range<usize>, HighlightStyle)>,
    /// The pieces of `text` that hold the name.
    pub name_ranges: Vec<Range<usize>>,
    /// The body of what the entry covers.
    pub body_range: Option<Range<T>>,
    /// The annotation in front of what the entry covers.
    pub annotation_range: Option<Range<T>>,
}

/// The contents of an `OutlineItem`.
#[verifier::ext_equal]
pub struct OutlineItemView<T> {
    pub depth: usize,
    pub range: Range<T>,
    pub source_range_for_text: Range<T>,
    pub text: Seq<char>,
    pub highlight_ranges: Seq<(Range<usize>, HighlightStyle)>,
    pub name_ranges: Seq<Range<usize>>,
    pub body_range: Option<Range<T>>,
    pub annotation_range: Option<Range<T>>,
}

impl<T> View for OutlineItem<T> {
    type V = OutlineItemView<T>;

    open spec fn view(&self) -> OutlineItemView<T> {
        OutlineItemView {
            depth: self.depth,
            range: self.range,
            source_range_for_text: self.source_range_for_text,
            text: self.text@,
            highlight_ranges: self.highlight_ranges@,
            name_ranges: self.name_ranges@,
            body_range: self.body_range,
            annotation_range: self.annotation_range,
        }
    }
}

/// The contents of a list of outline entries.
pub open spec fn items_view<T>(items: Seq<OutlineItem<T>>) -> Seq<OutlineItemView<T>> {
    items.map_values(|item: OutlineItem<T>| item@)
}

fn copy_range<T: Copy>(range: &Range<T>) -> (result: Range<T>)
    ensures
        result == *range,
{
    Range { start: range.start, end: range.end }
}

fn copy_name_ranges(ranges: &Vec<Range<usize>>) -> (result: Vec<Range<usize>>)
    ensures
        result@ == ranges@,
{
    let mut copy: Vec<Range<usize>> = Vec::new();
    let mut i: usize = 0;
    while i < ranges.len()
        invariant
            i <= ranges.len(),
            copy@ == ranges@.take(i as int),
        decreases ranges.len() - i,
    {
        copy.push(copy_range(&ranges[i]));
        i += 1;
    }
    copy
}

fn copy_highlight_ranges(ranges: &Vec<(Range<usize>, HighlightStyle)>) -> (result: Vec<
    (Range<usize>, HighlightStyle),
>)
    ensures
        result@ == ranges@,
{
    let mut copy: Vec<(Range<usize>, HighlightStyle)> = Vec::new();
    let mut i: usize = 0;
    while i < ranges.len()
        invariant
            i <= ranges.len(),
            copy@ == ranges@.take(i as int),
        decreases ranges.len() - i,
    {
        copy.push((copy_range(&ranges[i].0), ranges[i].1));
        i += 1;
    }
    copy
}

impl<T: Copy> Clone for OutlineItem<T> {
    fn clone(&self) -> (result: Self)
        ensures
            result@ == self@,
    {
        OutlineItem {
            depth: self.depth,
            range: copy_range(&self.range),
            source_range_for_text: copy_range(&self.source_range_for_text),
            text: self.text.clone(),
            highlight_ranges: copy_highlight_ranges(&self.highlight_ranges),
            name_ranges: copy_name_ranges(&self.name_ranges),
            body_range: match &self.body_range {
                Some(range) => Some(copy_range(range)),
                None => None,
            },
            annotation_range: match &self.annotation_range {
                Some(range) => Some(copy_range(range)),
                None => None,
            },
        }
    }
}

impl OutlineItemView<text::Anchor> {
    /// Whether the entry covers `cursor`. Both ends of its range count.
    pub open spec fn contains(self, cursor: text::Anchor, snapshot: BufferSnapshot) -> bool {
        &&& snapshot.in_order(self.range.start, cursor)
        &&& snapshot.in_order(cursor, self.range.end)
    }

    /// The entry with its positions in the buffer made positions in an excerpt.
    pub open spec fn in_excerpt(self, excerpt_id: ExcerptId) -> OutlineItemView<Anchor> {
        OutlineItemView {
            depth: self.depth,
            range: excerpt_range(excerpt_id, self.range),
            source_range_for_text: excerpt_range(excerpt_id, self.source_range_for_text),
            text: self.text,
            highlight_ranges: self.highlight_ranges,
            name_ranges: self.name_ranges,
            body_range: match self.body_range {
                Some(range) => Some(excerpt_range(excerpt_id, range)),
                None => None,
            },
            annotation_range: match self.annotation_range {
                Some(range) => Some(excerpt_range(excerpt_id, range)),
                None => None,
            },
        }
    }
}

impl OutlineItem<text::Anchor> {
    /// Tells whether the entry covers `cursor`. Both ends of its range count.
    pub fn contains(&self, cursor: text::Anchor, snapshot: &BufferSnapshot) -> (result: bool)
        ensures
            result == self@.contains(cursor, *snapshot),
    {
        snapshot.is_in_order(self.range.start, cursor) && snapshot.is_in_order(
            cursor,
            self.range.end,
        )
    }

    /// Copies the entry, with its positions in the buffer made positions in an excerpt.
    pub fn in_excerpt(&self, excerpt_id: ExcerptId) -> (result: OutlineItem<Anchor>)
        ensures
            result@ == self@.in_excerpt(excerpt_id),
    {
        OutlineItem {
            depth: self.depth,
            range: Anchor::range_in_buffer(excerpt_id, &self.range),
            source_range_for_text: Anchor::range_in_buffer(
                excerpt_id,
                &self.source_range_for_text,
            ),
            text: self.text.clone(),
            highlight_ranges: copy_highlight_ranges(&self.highlight_ranges),
            name_ranges: copy_name_ranges(&self.name_ranges),
            body_range: match &self.body_range {
                Some(range) => Some(Anchor::range_in_buffer(excerpt_id, range)),
                None => None,
            },
            annotation_range: match &self.annotation_range {
                Some(range) => Some(Anchor::range_in_buffer(excerpt_id, range)),
                None => None,
            },
        }
    }
}

/// The condition that an entry covers `cursor`.
pub open spec fn covers(cursor: text::Anchor, snapshot: BufferSnapshot) -> spec_fn(
    OutlineItemView<text::Anchor>,
) -> bool {
    |item: OutlineItemView<text::Anchor>| item.contains(cursor, snapshot)
}

/// The entries that cover `cursor`, in their order.
pub open spec fn enclosing(
    items: Seq<OutlineItemView<text::Anchor>>,
    cursor: text::Anchor,
    snapshot: BufferSnapshot,
) -> Seq<OutlineItemView<text::Anchor>> {
    items.filter(covers(cursor, snapshot))
}

/// Whether entry `i` is deeper than the one right before it.
pub open spec fn grows_at<T>(items: Seq<OutlineItemView<T>>, i: int) -> bool {
    items[i - 1].depth < items[i].depth
}

/// The longest run of entries, from the first one on, whose depths grow with every entry.
pub open spec fn growing_run<T>(items: Seq<OutlineItemView<T>>) -> Seq<OutlineItemView<T>>
    decreases items.len(),
{
    if items.len() == 0 {
        Seq::empty()
    } else {
        let run = growing_run(items.drop_last());
        if run.len() == items.len() - 1 && (items.len() == 1 || grows_at(items, items.len() - 1)) {
            run.push(items.last())
        } else {
            run
        }
    }
}

/// The run consists of first entries, its depths grow, and it ends where they stop to.
pub proof fn lemma_growing_run<T>(items: Seq<OutlineItemView<T>>)
    ensures
        growing_run(items).len() <= items.len(),
        growing_run(items) == items.take(growing_run(items).len() as int),
        items.len() > 0 ==> growing_run(items).len() > 0,
        forall|i: int| 0 < i < growing_run(items).len() ==> #[trigger] grows_at(items, i),
        growing_run(items).len() < items.len() ==> !grows_at(
            items,
            growing_run(items).len() as int,
        ),
    decreases items.len(),
{
    if items.len() > 0 {
        let before = items.drop_last();
        let run = growing_run(items);
        let shorter = growing_run(before);
        lemma_growing_run(before);
        assert(run =~= items.take(run.len() as int));
        assert forall|i: int| 0 < i < run.len() implies #[trigger] grows_at(items, i) by {
            if i < shorter.len() {
                assert(grows_at(before, i));
            }
        }
        if shorter.len() < before.len() {
            assert(!grows_at(before, shorter.len() as int));
        }
    }
}

/// Of two entries of the run the later is the deeper.
pub proof fn lemma_depths_grow<T>(items: Seq<OutlineItemView<T>>, i: int, j: int)
    requires
        0 <= i < j < growing_run(items).len(),
    ensures
        growing_run(items)[i].depth < growing_run(items)[j].depth,
    decreases j - i,
{
    lemma_growing_run(items);
    assert(grows_at(items, j));
    if i < j - 1 {
        lemma_depths_grow(items, i, j - 1);
    }
}

/// The chain of entries at `cursor`, from the outside in, as entries of the excerpt
/// `excerpt_id`: the first entry that covers `cursor`, and those that follow it among the
/// entries that do, as long as each is deeper than the one before.
pub open spec fn entries_at(
    items: Seq<OutlineItemView<text::Anchor>>,
    cursor: text::Anchor,
    snapshot: BufferSnapshot,
    excerpt_id: ExcerptId,
) -> Seq<OutlineItemView<Anchor>> {
    growing_run(
        enclosing(items, cursor, snapshot).map_values(
            |item: OutlineItemView<text::Anchor>| item.in_excerpt(excerpt_id),
        ),
    )
}

/// Collects the chain of entries at `cursor`, from the outside in, as entries of the excerpt
/// `excerpt_id`. Where an entry next to the chain touches `cursor` too, it is left out, and so
/// is all that is nested in it.
pub fn items_at_cursor(
    items: &Vec<OutlineItem<text::Anchor>>,
    cursor: text::Anchor,
    snapshot: &BufferSnapshot,
    excerpt_id: ExcerptId,
) -> (result: Vec<OutlineItem<Anchor>>)
    ensures
        items_view(result@) == entries_at(items_view(items@), cursor, *snapshot, excerpt_id),
        forall|i: int, j: int|
            0 <= i < j < result@.len() ==> (#[trigger] result@[i]).depth < (
            #[trigger] result@[j]).depth,
{
    let ghost all = items_view(items@);
    let ghost moved = |item: OutlineItemView<text::Anchor>| item.in_excerpt(excerpt_id);
    let mut symbols: Vec<OutlineItem<Anchor>> = Vec::new();
    let mut prev_depth: Option<usize> = None;
    let mut growing = true;
    let mut i: usize = 0;
    proof {
        reveal(Seq::filter);
        assert(enclosing(all.take(0), cursor, *snapshot) =~= Seq::empty());
        assert(items_view(symbols@) =~= Seq::empty());
    }
    while i < items.len()
        invariant
            i <= items.len(),
            all == items_view(items@),
            moved == (|item: OutlineItemView<text::Anchor>| item.in_excerpt(excerpt_id)),
            items_view(symbols@) == growing_run(
                enclosing(all.take(i as int), cursor, *snapshot).map_values(moved),
            ),
            growing == (symbols@.len() == enclosing(
                all.take(i as int),
                cursor,
                *snapshot,
            ).len()),
            ({
                let seen = enclosing(all.take(i as int), cursor, *snapshot);
                prev_depth == if seen.len() == 0 {
                    None
                } else {
                    Some(seen.last().depth)
                }
            }),
        decreases items.len() - i,
    {
        let item = &items[i];
        let ghost seen = enclosing(all.take(i as int), cursor, *snapshot);
        let ghost seen_next = enclosing(all.take(i + 1), cursor, *snapshot);
        let ghost kept = symbols@;
        proof {
            lemma_growing_run(seen.map_values(moved));
            reveal(Seq::filter);
            assert(all.take(i + 1).drop_last() =~= all.take(i as int));
            assert(all.take(i + 1).last() == item@);
        }
        if item.contains(cursor, snapshot) {
            proof {
                assert(seen_next == seen.push(item@));
                assert(seen_next.map_values(moved).drop_last() =~= seen.map_values(moved));
                assert(seen_next.map_values(moved).last() == item@.in_excerpt(excerpt_id));
            }
            let deeper = match prev_depth {
                Some(prev_depth) => item.depth > prev_depth,
                None => true,
            };
            growing = growing && deeper;
            if growing {
                symbols.push(item.in_excerpt(excerpt_id));
                assert(items_view(symbols@) =~= items_view(kept).push(
                    item@.in_excerpt(excerpt_id),
                ));
            }
            prev_depth = Some(item.depth);
        }
        i += 1;
    }
    assert(all.take(items.len() as int) =~= all);
    proof {
        let found = enclosing(all, cursor, *snapshot).map_values(moved);
        assert forall|i: int, j: int| 0 <= i < j < symbols@.len() implies (
        #[trigger] symbols@[i]).depth < (#[trigger] symbols@[j]).depth by {
            lemma_depths_grow(found, i, j);
            assert(items_view(symbols@)[i] == symbols@[i]@);
            assert(items_view(symbols@)[j] == symbols@[j]@);
        }
    }
    symbols
}

/// Copies a list of outline entries.
pub fn copy_items(items: &Vec<OutlineItem<text::Anchor>>) -> (result: Vec<
    OutlineItem<text::Anchor>,
>)
    ensures
        items_view(result@) == items_view(items@),
{
    let result = items.clone();
    assert(items_view(result@) =~= items_view(items@));
    result
}

} // verus!
