//! The contents of a value, as contracts speak of them, are all that the value holds.

use vstd::prelude::*;

use crate::editor::{Editor, Task, symbols_at_view};
use crate::multi_buffer::Anchor;
use crate::outline::{OutlineItem, OutlineItemView, items_view};
use crate::refresh::{
    RefreshAction, RefreshEvent, RefreshId, RefreshTask, action_view, replies_view,
};
use crate::text;
use crate::text::BufferId;

verus! {

/// Whether `view` holds every field of `item`.
pub open spec fn holds_item<T>(view: OutlineItemView<T>, item: OutlineItem<T>) -> bool {
    &&& view.depth == item.depth
    &&& view.range == item.range
    &&& view.source_range_for_text == item.source_range_for_text
    &&& view.text == item.text@
    &&& view.highlight_ranges == item.highlight_ranges@
    &&& view.name_ranges == item.name_ranges@
    &&& view.body_range == item.body_range
    &&& view.annotation_range == item.annotation_range
}

/// Whether `view` holds every entry of `items`, in order.
pub open spec fn holds_items<T>(view: Seq<OutlineItemView<T>>, items: Seq<OutlineItem<T>>) -> bool {
    &&& view.len() == items.len()
    &&& forall|i: int| 0 <= i < items.len() ==> holds_item(view[i], #[trigger] items[i])
}

/// The contents of entries are all of their fields, of every entry, in order.
pub proof fn law_items_are_seen_whole<T>(items: Seq<OutlineItem<T>>)
    ensures
        holds_items(items_view(items), items),
{
}

/// The contents of replies are all of their entries, reply by reply.
pub proof fn law_replies_are_seen_whole(replies: Seq<Vec<OutlineItem<text::Anchor>>>)
    ensures
        replies_view(replies).len() == replies.len(),
        forall|k: int|
            0 <= k < replies.len() ==> holds_items(
                replies_view(replies)[k],
                (#[trigger] replies[k])@,
            ),
{
    assert forall|k: int| 0 <= k < replies.len() implies holds_items(
        replies_view(replies)[k],
        (#[trigger] replies[k])@,
    ) by {
        law_items_are_seen_whole(replies[k]@);
    }
}

/// The contents of an editor are all of its fields, with the entries of every list of symbols.
pub proof fn law_editor_is_seen_whole(editor: Editor)
    ensures
        editor@.mode == editor.mode,
        editor@.project == editor.project,
        editor@.buffer == editor.buffer,
        editor@.task == editor.refresh_document_symbols_task@,
        editor@.latest_refresh == editor.latest_refresh,
        forall|raw: u64| #[trigger]
            editor@.symbols.contains_key(raw) == editor.lsp_document_symbols@.contains_key(raw),
        forall|raw: u64| #[trigger]
            editor.lsp_document_symbols@.contains_key(raw) ==> holds_items(
                editor@.symbols[raw],
                editor.lsp_document_symbols@[raw]@,
            ),
{
    assert forall|raw: u64| #[trigger]
        editor.lsp_document_symbols@.contains_key(raw) implies holds_items(
        editor@.symbols[raw],
        editor.lsp_document_symbols@[raw]@,
    ) by {
        law_items_are_seen_whole(editor.lsp_document_symbols@[raw]@);
    }
}

/// The contents of a refresh, of what is reported to it and of what it asks for are all of their
/// fields.
pub proof fn law_refresh_is_seen_whole(
    task: RefreshTask,
    event: RefreshEvent,
    action: Option<RefreshAction>,
)
    ensures
        match task {
            RefreshTask::Ready => task@ is Ready,
            RefreshTask::Debouncing { id, project, buffers } => {
                &&& task@ is Debouncing
                &&& task@->Debouncing_id == id
                &&& task@->Debouncing_project == project
                &&& task@->Debouncing_buffers == buffers@
            },
            RefreshTask::Fetching { id, buffers } => {
                &&& task@ is Fetching
                &&& task@->Fetching_id == id
                &&& task@->Fetching_buffers == buffers@
            },
        },
        match event {
            RefreshEvent::DebounceElapsed { id } => {
                &&& event@ is DebounceElapsed
                &&& event@->DebounceElapsed_id == id
            },
            RefreshEvent::EditorReleased => event@ is EditorReleased,
            RefreshEvent::SymbolsFetched { id, replies } => {
                &&& event@ is SymbolsFetched
                &&& event@->SymbolsFetched_id == id
                &&& event@->SymbolsFetched_replies == replies_view(replies@)
            },
        },
        match action {
            None => action_view(action) is None,
            Some(RefreshAction::Debounce { id }) => {
                &&& action_view(action) is Some
                &&& action_view(action)->0 is Debounce
                &&& action_view(action)->0->Debounce_id == id
            },
            Some(RefreshAction::FetchDocumentSymbols { id, project, buffers }) => {
                &&& action_view(action) is Some
                &&& action_view(action)->0 is FetchDocumentSymbols
                &&& action_view(action)->0->FetchDocumentSymbols_id == id
                &&& action_view(action)->0->project == project
                &&& action_view(action)->0->FetchDocumentSymbols_buffers == buffers@
            },
            Some(RefreshAction::RefreshOutlineSymbolsAtCursor) => {
                &&& action_view(action) is Some
                &&& action_view(action)->0 is RefreshOutlineSymbolsAtCursor
            },
        },
{
}

/// The contents of an outline, and of the symbols at a cursor, are all of their fields.
pub proof fn law_results_are_seen_whole(
    task: Task,
    symbols: Option<(BufferId, Vec<OutlineItem<Anchor>>)>,
)
    ensures
        match task {
            Task::Ready(items) => task@ is Ready && holds_items(task@->Ready_0, items@),
            Task::Background(request) => {
                &&& task@ is Background
                &&& task@->Background_0.snapshot == request.snapshot
                &&& task@->Background_0.syntax == request.syntax
            },
        },
        match (symbols, symbols_at_view(symbols)) {
            (Some((id, items)), Some((seen_id, seen))) => id == seen_id && holds_items(
                seen,
                items@,
            ),
            (None, None) => true,
            _ => false,
        },
{
    if let Task::Ready(items) = task {
        law_items_are_seen_whole(items@);
    }
    if let Some((id, items)) = symbols {
        law_items_are_seen_whole(items@);
    }
}

/// Refreshes are numbered one after the other, and after the largest number comes zero.
pub proof fn law_refreshes_are_numbered_in_turn(id: RefreshId)
    ensures
        id.raw < u64::MAX ==> id.successor().raw == id.raw + 1,
        id.raw == u64::MAX ==> id.successor().raw == 0,
{
}

} // verus!
