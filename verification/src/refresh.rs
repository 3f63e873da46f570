//! The task that fetches document symbols: what it waits for and what it asks of its host.

use vstd::prelude::*;

use crate::language::BufferHandle;
use crate::outline::{OutlineItem, OutlineItemView, items_view};
use crate::text;
use crate::text::BufferId;

verus! {

/// A project, whose language servers answer requests about its buffers.
#[derive(Clone, Copy, Debug, PartialEq, Eq, Structural)]
pub struct Project {
    pub id: u64,
}

/// The number of a refresh. Whatever a refresh asks for and whatever is reported to it carries
/// its number, so that reports to a refresh that has been given up are told apart.
#[derive(Clone, Copy, Debug, PartialEq, Eq, Structural)]
pub struct RefreshId {
    pub raw: u64,
}

impl RefreshId {
    /// The number of the refresh that is started next. After the largest number comes zero.
    pub open spec fn successor(self) -> RefreshId {
        RefreshId { raw: if self.raw == u64::MAX { 0 } else { (self.raw + 1) as u64 } }
    }

    /// Gives the number of the refresh that is started next.
    pub fn next(self) -> (result: RefreshId)
        ensures
            result == self.successor(),
    {
        RefreshId { raw: if self.raw == u64::MAX { 0 } else { self.raw + 1 } }
    }
}

/// How far a refresh of document symbols has got.
#[derive(Debug)]
pub enum RefreshTask {
    /// Nothing is under way.
    Ready,
    /// The refresh waits for further edits to come in first.
    Debouncing { id: RefreshId, project: Project, buffers: Vec<BufferHandle> },
    /// The project has been asked for the symbols of each of the buffers.
    Fetching { id: RefreshId, buffers: Vec<BufferHandle> },
}

/// The contents of a `RefreshTask`.
#[verifier::ext_equal]
pub enum RefreshTaskView {
    Ready,
    Debouncing { id: RefreshId, project: Project, buffers: Seq<BufferHandle> },
    Fetching { id: RefreshId, buffers: Seq<BufferHandle> },
}

impl View for RefreshTask {
    type V = RefreshTaskView;

    open spec fn view(&self) -> RefreshTaskView {
        match *self {
            RefreshTask::Ready => RefreshTaskView::Ready,
            RefreshTask::Debouncing { id, project, buffers } => RefreshTaskView::Debouncing {
                id,
                project,
                buffers: buffers@,
            },
            RefreshTask::Fetching { id, buffers } => RefreshTaskView::Fetching {
                id,
                buffers: buffers@,
            },
        }
    }
}

/// What the host has to report to a refresh.
#[derive(Debug)]
pub enum RefreshEvent {
    /// The debounce timer of the refresh ran out.
    DebounceElapsed { id: RefreshId },
    /// The editor is gone.
    EditorReleased,
    /// All replies are in: for each buffer asked about, in the same order, its symbols.
    SymbolsFetched { id: RefreshId, replies: Vec<Vec<OutlineItem<text::Anchor>>> },
}

/// The contents of a `RefreshEvent`.
#[verifier::ext_equal]
pub enum RefreshEventView {
    DebounceElapsed { id: RefreshId },
    EditorReleased,
    SymbolsFetched { id: RefreshId, replies: Seq<Seq<OutlineItemView<text::Anchor>>> },
}

/// The contents of a list of replies.
pub open spec fn replies_view(replies: Seq<Vec<OutlineItem<text::Anchor>>>) -> Seq<
    Seq<OutlineItemView<text::Anchor>>,
> {
    replies.map_values(|items: Vec<OutlineItem<text::Anchor>>| items_view(items@))
}

impl View for RefreshEvent {
    type V = RefreshEventView;

    open spec fn view(&self) -> RefreshEventView {
        match *self {
            RefreshEvent::DebounceElapsed { id } => RefreshEventView::DebounceElapsed { id },
            RefreshEvent::EditorReleased => RefreshEventView::EditorReleased,
            RefreshEvent::SymbolsFetched { id, replies } => RefreshEventView::SymbolsFetched {
                id,
                replies: replies_view(replies@),
            },
        }
    }
}

/// What a refresh asks its host to do next.
#[derive(Debug, PartialEq)]
pub enum RefreshAction {
    /// Drop whatever an earlier refresh is waiting for, and start the debounce timer.
    Debounce { id: RefreshId },
    /// Ask the project's language servers for the symbols of each of the buffers.
    FetchDocumentSymbols { id: RefreshId, project: Project, buffers: Vec<BufferHandle> },
    /// Work out anew which symbols enclose the cursor.
    RefreshOutlineSymbolsAtCursor,
}

/// The contents of a `RefreshAction`.
#[verifier::ext_equal]
pub enum RefreshActionView {
    Debounce { id: RefreshId },
    FetchDocumentSymbols { id: RefreshId, project: Project, buffers: Seq<BufferHandle> },
    RefreshOutlineSymbolsAtCursor,
}

impl View for RefreshAction {
    type V = RefreshActionView;

    open spec fn view(&self) -> RefreshActionView {
        match *self {
            RefreshAction::Debounce { id } => RefreshActionView::Debounce { id },
            RefreshAction::FetchDocumentSymbols {
                id,
                project,
                buffers,
            } => RefreshActionView::FetchDocumentSymbols { id, project, buffers: buffers@ },
            RefreshAction::RefreshOutlineSymbolsAtCursor =>
                RefreshActionView::RefreshOutlineSymbolsAtCursor,
        }
    }
}

/// The contents of an action that may be missing.
pub open spec fn action_view(action: Option<RefreshAction>) -> Option<RefreshActionView> {
    match action {
        Some(action) => Some(action@),
        None => None,
    }
}

/// Whether a handle with the identity `id` is among `buffers`.
pub open spec fn lists(buffers: Seq<BufferHandle>, id: BufferId) -> bool {
    exists|i: int| 0 <= i < buffers.len() && (#[trigger] buffers[i]).remote_id == id
}

/// The first handle with each identity, in the order of `buffers`.
pub open spec fn first_of_each(buffers: Seq<BufferHandle>) -> Seq<BufferHandle>
    decreases buffers.len(),
{
    if buffers.len() == 0 {
        Seq::empty()
    } else {
        let kept = first_of_each(buffers.drop_last());
        if lists(buffers.drop_last(), buffers.last().remote_id) {
            kept
        } else {
            kept.push(buffers.last())
        }
    }
}

/// Keeps the first handle with each identity, in order.
///
/// Calls `itertools::Itertools::unique_by` with the identity as the key. Claimed of it: an
/// item is yielded exactly when no item before it has its key, and the order is kept.
#[verifier::external_body]
pub(crate) fn unique_by_remote_id(buffers: Vec<BufferHandle>) -> (result: Vec<BufferHandle>)
    ensures
        result@ == first_of_each(buffers@),
{
    itertools::Itertools::unique_by(buffers.into_iter(), |buffer| buffer.remote_id.raw).collect()
}

} // verus!
