//! What holds of the editor's operations taken together.

use vstd::prelude::*;

use crate::chain::{
    ancestor_chain, ancestors_cover, law_ancestor_chain, law_symbols_cover_cursor, taken_in_order,
};
use crate::editor::{
    EditorView, OutlineRequest, SymbolsById, TaskView, answered, handles, is_queried,
    lsp_enabled_for, with_replies,
};
use crate::language::{App, Buffer, BufferHandle};
use crate::multi_buffer::{Anchor, MultiBufferSnapshot};
use crate::outline::{OutlineItemView, enclosing, entries_at, lemma_growing_run};
use crate::refresh::{
    Project, RefreshActionView, RefreshEventView, RefreshId, RefreshTaskView, first_of_each, lists,
};
use crate::text;
use crate::text::BufferId;

verus! {

/// Whether no two handles have one identity.
pub open spec fn distinct(buffers: Seq<BufferHandle>) -> bool {
    forall|i: int, j: int|
        0 <= i < j < buffers.len() ==> (#[trigger] buffers[i]).remote_id != (
        #[trigger] buffers[j]).remote_id
}

proof fn lemma_kept_are_listed(buffers: Seq<BufferHandle>, handle: BufferHandle)
    requires
        first_of_each(buffers).contains(handle),
    ensures
        buffers.contains(handle),
    decreases buffers.len(),
{
    let before = buffers.drop_last();
    if first_of_each(before).contains(handle) {
        lemma_kept_are_listed(before, handle);
        let i = choose|i: int| 0 <= i < before.len() && before[i] == handle;
        assert(buffers[i] == handle);
    } else {
        let all = first_of_each(buffers);
        let k = choose|k: int| 0 <= k < all.len() && all[k] == handle;
        if k < first_of_each(before).len() {
            assert(first_of_each(before)[k] == handle);
        }
        assert(buffers[buffers.len() - 1] == handle);
    }
}

proof fn lemma_same_identities(buffers: Seq<BufferHandle>, id: BufferId)
    ensures
        lists(first_of_each(buffers), id) == lists(buffers, id),
    decreases buffers.len(),
{
    if buffers.len() > 0 {
        let before = buffers.drop_last();
        let last = buffers.last();
        lemma_same_identities(before, id);
        lemma_lists_push(before, last, id);
        assert(buffers =~= before.push(last));
        lemma_lists_push(first_of_each(before), last, id);
    }
}

proof fn lemma_lists_push(buffers: Seq<BufferHandle>, handle: BufferHandle, id: BufferId)
    ensures
        lists(buffers.push(handle), id) == (lists(buffers, id) || handle.remote_id == id),
{
    let longer = buffers.push(handle);
    if lists(buffers, id) {
        let i = choose|i: int| 0 <= i < buffers.len() && (#[trigger] buffers[i]).remote_id == id;
        assert(longer[i].remote_id == id);
    }
    if handle.remote_id == id {
        assert(longer[buffers.len() as int].remote_id == id);
    }
    if lists(longer, id) {
        let i = choose|i: int| 0 <= i < longer.len() && (#[trigger] longer[i]).remote_id == id;
        if i < buffers.len() {
            assert(buffers[i].remote_id == id);
        }
    }
}

proof fn lemma_kept_are_distinct(buffers: Seq<BufferHandle>)
    ensures
        distinct(first_of_each(buffers)),
    decreases buffers.len(),
{
    if buffers.len() > 0 {
        let before = buffers.drop_last();
        let kept = first_of_each(before);
        let all = first_of_each(buffers);
        lemma_kept_are_distinct(before);
        lemma_same_identities(before, buffers.last().remote_id);
        assert forall|i: int, j: int| 0 <= i < j < all.len() implies (
        #[trigger] all[i]).remote_id != (#[trigger] all[j]).remote_id by {
            assert(all[i] == kept[i]);
            if j < kept.len() {
                assert(all[j] == kept[j]);
            }
        }
    }
}

/// A refresh asks about each buffer at most once, only about buffers that are shown, are meant
/// and have their symbols from a language server, and about every such buffer.
pub proof fn law_queried_buffers(editor: EditorView, for_buffer: Option<BufferId>, cx: App)
    ensures
        distinct(editor.to_query(for_buffer, cx)),
        forall|handle: BufferHandle| #[trigger]
            editor.to_query(for_buffer, cx).contains(handle) ==> exists|i: int|
                0 <= i < editor.buffer.buffers@.len() && (
                #[trigger] editor.buffer.buffers@[i]).handle == handle && is_queried(
                    for_buffer,
                    cx,
                )(editor.buffer.buffers@[i]),
        forall|i: int|
            0 <= i < editor.buffer.buffers@.len() && is_queried(for_buffer, cx)(
                #[trigger] editor.buffer.buffers@[i],
            ) ==> lists(
                editor.to_query(for_buffer, cx),
                editor.buffer.buffers@[i].handle.remote_id,
            ),
{
    let shown = editor.buffer.buffers@;
    let queried = is_queried(for_buffer, cx);
    let chosen = shown.filter(queried);
    let all = handles(chosen);
    let result = editor.to_query(for_buffer, cx);
    lemma_kept_are_distinct(all);
    assert forall|handle: BufferHandle| #[trigger] result.contains(handle) implies exists|i: int|
        0 <= i < shown.len() && (#[trigger] shown[i]).handle == handle && queried(shown[i]) by {
        lemma_kept_are_listed(all, handle);
        let j = choose|j: int| 0 <= j < all.len() && all[j] == handle;
        shown.lemma_filter_pred(queried, j);
        assert(chosen.contains(chosen[j]));
        shown.lemma_filter_contains_rev(queried, chosen[j]);
        let i = choose|i: int| 0 <= i < shown.len() && shown[i] == chosen[j];
        assert(shown[i].handle == handle);
    }
    assert forall|i: int| 0 <= i < shown.len() && queried(#[trigger] shown[i]) implies lists(
        result,
        shown[i].handle.remote_id,
    ) by {
        shown.lemma_filter_contains(queried, i);
        let j = choose|j: int| 0 <= j < chosen.len() && chosen[j] == shown[i];
        assert(all[j].remote_id == shown[i].handle.remote_id);
        lemma_same_identities(all, shown[i].handle.remote_id);
    }
}

/// Where no buffer that is shown has its symbols from a language server, a refresh does
/// nothing, so that no server is ever asked.
pub proof fn law_disabled_never_fetches(editor: EditorView, for_buffer: Option<BufferId>, cx: App)
    requires
        forall|i: int|
            0 <= i < editor.buffer.buffers@.len() ==> !lsp_enabled_for(
                #[trigger] editor.buffer.buffers@[i],
                cx,
            ),
    ensures
        editor.refreshed(for_buffer, cx) == (editor, None::<RefreshActionView>),
{
    law_queried_buffers(editor, for_buffer, cx);
    let result = editor.to_query(for_buffer, cx);
    if result.len() > 0 {
        let first = result[0];
        assert(result.contains(first));
        let i = choose|i: int|
            0 <= i < editor.buffer.buffers@.len() && (
            #[trigger] editor.buffer.buffers@[i]).handle == first && is_queried(for_buffer, cx)(
                editor.buffer.buffers@[i],
            );
        assert(!lsp_enabled_for(editor.buffer.buffers@[i], cx));
    }
}

/// Whether an event is of the refresh numbered `id`. That the editor is gone concerns every
/// refresh.
pub open spec fn concerns(id: RefreshId) -> spec_fn(RefreshEventView) -> bool {
    |event: RefreshEventView|
        match event {
            RefreshEventView::DebounceElapsed { id: reported } => reported == id,
            RefreshEventView::SymbolsFetched { id: reported, .. } => reported == id,
            RefreshEventView::EditorReleased => true,
        }
}

/// Of a refresh and what is reported to one, only replies that come in while they are waited
/// for change the symbols, and nothing but the task and the number of the latest refresh
/// changes besides. A request goes out only when the debounce timer of the refresh under way
/// runs out.
pub proof fn law_refresh_frame(
    editor: EditorView,
    for_buffer: Option<BufferId>,
    cx: App,
    event: RefreshEventView,
)
    ensures
        ({
            let (after, action) = editor.refreshed(for_buffer, cx);
            &&& after == (EditorView {
                task: after.task,
                latest_refresh: after.latest_refresh,
                ..editor
            })
            &&& action is Some ==> action->0 is Debounce
        }),
        ({
            let (after, action) = editor.advanced(event);
            &&& after == (EditorView { task: after.task, symbols: after.symbols, ..editor })
            &&& !(editor.task is Fetching && event is SymbolsFetched) ==> after.symbols
                == editor.symbols
            &&& (action is Some && action->0 is FetchDocumentSymbols) <==> {
                &&& editor.task is Debouncing
                &&& event is DebounceElapsed
                &&& event->DebounceElapsed_id == editor.task->Debouncing_id
            }
        }),
{
}

/// Whether the refresh under way, if there is one, is the one that was started last.
pub open spec fn latest_is_under_way(editor: EditorView) -> bool {
    match editor.task {
        RefreshTaskView::Ready => true,
        RefreshTaskView::Debouncing { id, .. } => id == editor.latest_refresh,
        RefreshTaskView::Fetching { id, .. } => id == editor.latest_refresh,
    }
}

/// The refresh under way is always the one that was started last.
pub proof fn law_latest_stays_under_way(
    editor: EditorView,
    for_buffer: Option<BufferId>,
    cx: App,
    event: RefreshEventView,
)
    requires
        latest_is_under_way(editor),
    ensures
        latest_is_under_way(editor.refreshed(for_buffer, cx).0),
        latest_is_under_way(editor.advanced(event).0),
{
}

/// The number of the refresh that is the `n`th to be started after the one numbered `id`.
pub open spec fn nth_successor(id: RefreshId, n: nat) -> RefreshId
    decreases n,
{
    if n == 0 {
        id
    } else {
        nth_successor(id, (n - 1) as nat).successor()
    }
}

proof fn lemma_nth_successor(id: RefreshId, n: nat)
    requires
        n <= u64::MAX,
    ensures
        nth_successor(id, n).raw == if id.raw + n <= u64::MAX {
            id.raw + n
        } else {
            id.raw + n - u64::MAX - 1
        },
    decreases n,
{
    if n > 0 {
        lemma_nth_successor(id, (n - 1) as nat);
    }
}

/// No two refreshes have one number, unless there are at least as many between them as there
/// are numbers.
pub proof fn law_refreshes_have_distinct_numbers(id: RefreshId, n: nat)
    requires
        0 < n <= u64::MAX,
    ensures
        nth_successor(id, n) != id,
{
    lemma_nth_successor(id, n);
}

/// The editor after a series of events has reached its refreshes, and all that the host was
/// asked to do.
pub open spec fn after_events(editor: EditorView, events: Seq<RefreshEventView>) -> (
    EditorView,
    Seq<RefreshActionView>,
)
    decreases events.len(),
{
    if events.len() == 0 {
        (editor, Seq::empty())
    } else {
        let (before, actions) = after_events(editor, events.drop_last());
        let (after, action) = before.advanced(events.last());
        (
            after,
            match action {
                Some(action) => actions.push(action),
                None => actions,
            },
        )
    }
}

/// Whether `after`, reached from `start` with the host asked for `actions`, is a state of the
/// refresh numbered `id` of `buffers`.
spec fn is_state_of(
    start: EditorView,
    id: RefreshId,
    project: Project,
    buffers: Seq<BufferHandle>,
    after: EditorView,
    actions: Seq<RefreshActionView>,
) -> bool {
    let fetch = RefreshActionView::FetchDocumentSymbols { id, project, buffers };
    let all = seq![fetch, RefreshActionView::RefreshOutlineSymbolsAtCursor];
    &&& after == (EditorView { task: after.task, symbols: after.symbols, ..start })
    &&& match after.task {
        RefreshTaskView::Debouncing { .. } => {
            &&& after.task == RefreshTaskView::Debouncing { id, project, buffers }
            &&& actions == Seq::<RefreshActionView>::empty()
            &&& after.symbols == start.symbols
        },
        RefreshTaskView::Fetching { .. } => {
            &&& after.task == RefreshTaskView::Fetching { id, buffers }
            &&& actions == seq![fetch]
            &&& after.symbols == start.symbols
        },
        RefreshTaskView::Ready => {
            &&& actions.is_prefix_of(all)
            &&& actions.len() < 2 ==> after.symbols == start.symbols
            &&& forall|other: BufferId|
                !#[trigger] lists(buffers, other) ==> after.symbols.contains_key(other.raw)
                    == start.symbols.contains_key(other.raw) && after.symbols_of(other)
                    == start.symbols_of(other)
        },
    }
}

proof fn lemma_state_of_refresh(
    start: EditorView,
    id: RefreshId,
    project: Project,
    buffers: Seq<BufferHandle>,
    events: Seq<RefreshEventView>,
)
    requires
        start.task == (RefreshTaskView::Debouncing { id, project, buffers }),
        distinct(buffers),
    ensures
        is_state_of(
            start,
            id,
            project,
            buffers,
            after_events(start, events).0,
            after_events(start, events).1,
        ),
    decreases events.len(),
{
    if events.len() > 0 {
        lemma_state_of_refresh(start, id, project, buffers, events.drop_last());
        let (before, actions) = after_events(start, events.drop_last());
        let event = events.last();
        let (after, action) = before.advanced(event);
        let fetch = RefreshActionView::FetchDocumentSymbols { id, project, buffers };
        let outline = RefreshActionView::RefreshOutlineSymbolsAtCursor;
        let all = seq![fetch, outline];
        assert(Seq::<RefreshActionView>::empty().push(fetch) =~= seq![fetch]);
        assert(seq![fetch].push(outline) =~= all);
        assert(Seq::<RefreshActionView>::empty().is_prefix_of(all));
        assert(seq![fetch].is_prefix_of(all));
        assert(all.is_prefix_of(all));
        if before.task is Fetching && action is Some {
            let replies = event->SymbolsFetched_replies;
            lemma_with_replies(start.symbols, buffers, replies, answered(buffers, replies));
            assert forall|other: BufferId| !#[trigger] lists(buffers, other) implies
                after.symbols.contains_key(other.raw) == start.symbols.contains_key(other.raw)
                && after.symbols_of(other) == start.symbols_of(other) by {
                assert forall|k: int|
                    0 <= k < answered(buffers, replies) implies (
                #[trigger] buffers[k]).remote_id.raw != other.raw by {
                    assert(buffers[k].remote_id != other);
                }
                assert(after.symbols.contains_key(other.raw) == start.symbols.contains_key(
                    other.raw,
                ));
            }
        }
    }
}

proof fn lemma_other_events_are_ignored(
    start: EditorView,
    id: RefreshId,
    project: Project,
    buffers: Seq<BufferHandle>,
    events: Seq<RefreshEventView>,
)
    requires
        start.task == (RefreshTaskView::Debouncing { id, project, buffers }),
        distinct(buffers),
    ensures
        after_events(start, events) == after_events(start, events.filter(concerns(id))),
    decreases events.len(),
{
    reveal(Seq::filter);
    if events.len() > 0 {
        let before = events.drop_last();
        let kept = before.filter(concerns(id));
        lemma_other_events_are_ignored(start, id, project, buffers, before);
        lemma_state_of_refresh(start, id, project, buffers, before);
        if concerns(id)(events.last()) {
            assert(kept.push(events.last()).drop_last() =~= kept);
        }
    }
}

/// A refresh that starts takes the place of the one before it, whatever that was waiting for.
/// From then on nothing that is reported to any other refresh has an effect: the editor and what
/// the host is asked to do are as if only the events of the new refresh had come in. In
/// particular the events of the one that was replaced change nothing and lead to nothing. One
/// that does not start leaves the one before it under way.
pub proof fn law_latest_refresh_wins(
    editor: EditorView,
    for_buffer: Option<BufferId>,
    cx: App,
    events: Seq<RefreshEventView>,
)
    ensures
        editor.refresh_target(for_buffer, cx) is None ==> editor.refreshed(for_buffer, cx) == (
            editor,
            None::<RefreshActionView>,
        ),
        editor.refresh_target(for_buffer, cx) is Some ==> {
            let id = editor.latest_refresh.successor();
            let started = editor.refreshed(for_buffer, cx).0;
            &&& id != editor.latest_refresh
            &&& after_events(started, events) == after_events(started, events.filter(concerns(id)))
            &&& (forall|i: int|
                0 <= i < events.len() ==> !concerns(id)(#[trigger] events[i])) ==> after_events(
                started,
                events,
            ) == (started, Seq::<RefreshActionView>::empty())
        },
{
    if editor.refresh_target(for_buffer, cx) is Some {
        let id = editor.latest_refresh.successor();
        let started = editor.refreshed(for_buffer, cx).0;
        let buffers = editor.to_query(for_buffer, cx);
        law_queried_buffers(editor, for_buffer, cx);
        lemma_other_events_are_ignored(started, id, editor.project->0, buffers, events);
        if forall|i: int| 0 <= i < events.len() ==> !concerns(id)(#[trigger] events[i]) {
            events.lemma_all_neg_filter_empty(concerns(id));
        }
    }
}

/// The editor after a series of calls that each may start a refresh.
pub open spec fn after_calls(
    editor: EditorView,
    calls: Seq<(Option<BufferId>, App)>,
) -> EditorView
    decreases calls.len(),
{
    if calls.len() == 0 {
        editor
    } else {
        after_calls(editor, calls.drop_last()).refreshed(calls.last().0, calls.last().1).0
    }
}

proof fn lemma_calls_keep_target(
    editor: EditorView,
    calls: Seq<(Option<BufferId>, App)>,
    for_buffer: Option<BufferId>,
    cx: App,
)
    ensures
        after_calls(editor, calls).symbols == editor.symbols,
        after_calls(editor, calls).refresh_target(for_buffer, cx) == editor.refresh_target(
            for_buffer,
            cx,
        ),
        after_calls(editor, calls).to_query(for_buffer, cx) == editor.to_query(for_buffer, cx),
    decreases calls.len(),
{
    if calls.len() > 0 {
        lemma_calls_keep_target(editor, calls.drop_last(), for_buffer, cx);
    }
}

/// After a burst of calls, of which the last one starts a refresh, the host is asked for at most
/// one fetch, of the buffers that the last call is about, each once, and then to work out the
/// symbols at the cursor, whatever events come in. Until it is asked for the latter no symbols
/// change, and those of other buffers never do.
pub proof fn law_burst_fetches_once(
    editor: EditorView,
    calls: Seq<(Option<BufferId>, App)>,
    for_buffer: Option<BufferId>,
    cx: App,
    events: Seq<RefreshEventView>,
)
    requires
        editor.refresh_target(for_buffer, cx) is Some,
    ensures
        ({
            let buffers = editor.to_query(for_buffer, cx);
            let called = after_calls(editor, calls);
            let (after, actions) = after_events(called.refreshed(for_buffer, cx).0, events);
            &&& actions.is_prefix_of(
                seq![
                    RefreshActionView::FetchDocumentSymbols {
                        id: called.latest_refresh.successor(),
                        project: editor.project->0,
                        buffers,
                    },
                    RefreshActionView::RefreshOutlineSymbolsAtCursor,
                ],
            )
            &&& distinct(buffers)
            &&& actions.len() < 2 ==> after.symbols == editor.symbols
            &&& forall|other: BufferId|
                !#[trigger] lists(buffers, other) ==> after.symbols.contains_key(other.raw)
                    == editor.symbols.contains_key(other.raw) && after.symbols_of(other)
                    == editor.symbols_of(other)
        }),
{
    let buffers = editor.to_query(for_buffer, cx);
    let called = after_calls(editor, calls);
    lemma_calls_keep_target(editor, calls, for_buffer, cx);
    law_queried_buffers(editor, for_buffer, cx);
    let started = called.refreshed(for_buffer, cx).0;
    lemma_state_of_refresh(
        started,
        called.latest_refresh.successor(),
        editor.project->0,
        buffers,
        events,
    );
}

/// Once the editor is gone, nothing that is still reported has any effect.
pub proof fn law_released_editor_stays_silent(editor: EditorView, event: RefreshEventView)
    ensures
        ({
            let (released, action) = editor.advanced(RefreshEventView::EditorReleased);
            &&& action is None
            &&& released.symbols == editor.symbols
            &&& released.advanced(event) == (released, None::<RefreshActionView>)
        }),
{
}

proof fn lemma_with_replies(
    symbols: SymbolsById,
    buffers: Seq<BufferHandle>,
    replies: Seq<Seq<OutlineItemView<text::Anchor>>>,
    n: int,
)
    requires
        distinct(buffers),
        0 <= n <= buffers.len(),
    ensures
        forall|k: int|
            0 <= k < n ==> with_replies(symbols, buffers, replies, n).contains_key(
                (#[trigger] buffers[k]).remote_id.raw,
            ) && with_replies(symbols, buffers, replies, n)[buffers[k].remote_id.raw]
                == replies[k],
        forall|id: u64|
            (forall|k: int| 0 <= k < n ==> (#[trigger] buffers[k]).remote_id.raw != id) ==> (
            #[trigger] with_replies(symbols, buffers, replies, n).contains_key(id)
                == symbols.contains_key(id)) && with_replies(symbols, buffers, replies, n)[id]
                == symbols[id],
    decreases n,
{
    if n > 0 {
        lemma_with_replies(symbols, buffers, replies, n - 1);
        let before = with_replies(symbols, buffers, replies, n - 1);
        let after = with_replies(symbols, buffers, replies, n);
        assert forall|k: int| 0 <= k < n implies after.contains_key(
            (#[trigger] buffers[k]).remote_id.raw,
        ) && after[buffers[k].remote_id.raw] == replies[k] by {
            if k < n - 1 {
                assert(buffers[k].remote_id != buffers[n - 1].remote_id);
                assert(before.contains_key(buffers[k].remote_id.raw));
            }
        }
        assert forall|id: u64|
            (forall|k: int| 0 <= k < n ==> (#[trigger] buffers[k]).remote_id.raw != id) implies (
        #[trigger] after.contains_key(id) == symbols.contains_key(id)) && after[id]
            == symbols[id] by {
            assert(buffers[n - 1].remote_id.raw != id);
            assert(before.contains_key(id) == symbols.contains_key(id));
        }
    }
}

/// The editor after a refresh that nothing interrupts: it was started, the debounce timer ran
/// out, and the replies came in.
pub open spec fn fetched(
    editor: EditorView,
    for_buffer: Option<BufferId>,
    cx: App,
    replies: Seq<Seq<OutlineItemView<text::Anchor>>>,
) -> EditorView {
    let id = editor.latest_refresh.successor();
    editor.refreshed(for_buffer, cx).0.advanced(
        RefreshEventView::DebounceElapsed { id },
    ).0.advanced(RefreshEventView::SymbolsFetched { id, replies }).0
}

/// A refresh that nothing interrupts asks the host for the timer, for the symbols of the
/// buffers, and for the symbols at the cursor to be worked out anew, in this order. After it
/// the editor has, for each buffer asked about, the symbols that were reported for it, and what
/// it knew before of every other buffer.
pub proof fn law_fetched_symbols_are_stored(
    editor: EditorView,
    for_buffer: Option<BufferId>,
    cx: App,
    replies: Seq<Seq<OutlineItemView<text::Anchor>>>,
)
    requires
        editor.refresh_target(for_buffer, cx) is Some,
        replies.len() == editor.to_query(for_buffer, cx).len(),
    ensures
        ({
            let buffers = editor.to_query(for_buffer, cx);
            let id = editor.latest_refresh.successor();
            let started = editor.refreshed(for_buffer, cx);
            let asked = started.0.advanced(RefreshEventView::DebounceElapsed { id });
            let done = asked.0.advanced(RefreshEventView::SymbolsFetched { id, replies });
            &&& started.1 == Some(RefreshActionView::Debounce { id })
            &&& asked.1 == Some(
                RefreshActionView::FetchDocumentSymbols { id, project: editor.project->0, buffers },
            )
            &&& done.1 == Some(RefreshActionView::RefreshOutlineSymbolsAtCursor)
            &&& done.0 == fetched(editor, for_buffer, cx, replies)
            &&& done.0 == (EditorView {
                task: RefreshTaskView::Ready,
                symbols: done.0.symbols,
                latest_refresh: id,
                ..editor
            })
            &&& forall|k: int|
                0 <= k < buffers.len() ==> done.0.symbols.contains_key(
                    (#[trigger] buffers[k]).remote_id.raw,
                ) && done.0.symbols_of(buffers[k].remote_id) == replies[k]
            &&& forall|other: BufferId|
                !#[trigger] lists(buffers, other) ==> done.0.symbols.contains_key(other.raw)
                    == editor.symbols.contains_key(other.raw) && done.0.symbols_of(other)
                    == editor.symbols_of(other)
        }),
{
    let buffers = editor.to_query(for_buffer, cx);
    law_queried_buffers(editor, for_buffer, cx);
    lemma_with_replies(editor.symbols, buffers, replies, buffers.len() as int);
    let done = fetched(editor, for_buffer, cx, replies);
    assert(answered(buffers, replies) == buffers.len());
    assert forall|other: BufferId| !#[trigger] lists(buffers, other) implies
        done.symbols.contains_key(other.raw) == editor.symbols.contains_key(other.raw)
        && done.symbols_of(other) == editor.symbols_of(other) by {
        assert forall|k: int| 0 <= k < buffers.len() implies (#[trigger] buffers[k]).remote_id.raw
            != other.raw by {
            assert(buffers[k].remote_id != other);
        }
        assert(done.symbols.contains_key(other.raw) == editor.symbols.contains_key(other.raw));
    }
}

/// What a refresh has fetched for a buffer is what its outline then shows, while its symbols
/// come from the language server, and is what the symbols at a cursor in it are picked from. An
/// empty reply leaves no symbols at any cursor.
pub proof fn law_fetched_symbols_are_shown(
    editor: EditorView,
    for_buffer: Option<BufferId>,
    cx: App,
    replies: Seq<Seq<OutlineItemView<text::Anchor>>>,
    k: int,
    cursor: Anchor,
    snapshot: MultiBufferSnapshot,
)
    requires
        editor.refresh_target(for_buffer, cx) is Some,
        replies.len() == editor.to_query(for_buffer, cx).len(),
        0 <= k < replies.len(),
    ensures
        ({
            let id = editor.to_query(for_buffer, cx)[k].remote_id;
            let done = fetched(editor, for_buffer, cx, replies);
            &&& (done.buffer.buffer_with(id) matches Some(buffer) && lsp_enabled_for(buffer, cx))
                ==> done.outline_items(id, cx) == TaskView::Ready(replies[k])
            &&& match (snapshot.excerpt_at(cursor, cursor), done.buffer_at(cursor, snapshot)) {
                (Some(excerpt), Some(buffer)) => excerpt.buffer_id == id ==> done.symbols_at(
                    cursor,
                    snapshot,
                ) == if replies[k].len() == 0 {
                    None
                } else {
                    Some(
                        (
                            id,
                            entries_at(
                                replies[k],
                                cursor.text_anchor,
                                buffer.snapshot,
                                excerpt.id,
                            ),
                        ),
                    )
                },
                _ => true,
            }
        }),
{
    law_fetched_symbols_are_stored(editor, for_buffer, cx, replies);
    let id = editor.to_query(for_buffer, cx)[k].remote_id;
    let done = fetched(editor, for_buffer, cx, replies);
    assert(done.symbols_of(id) == replies[k]);
}

/// The symbols at a cursor are there exactly where the cursor is in a buffer that the editor
/// shows and knows symbols of.
pub proof fn law_symbols_at_cursor_exist(
    editor: EditorView,
    cursor: Anchor,
    snapshot: MultiBufferSnapshot,
)
    ensures
        editor.symbols_at(cursor, snapshot) is Some <==> {
            &&& snapshot.excerpt_at(cursor, cursor) matches Some(excerpt)
            &&& editor.buffer.buffer_with(excerpt.buffer_id) is Some
            &&& editor.symbols_of(excerpt.buffer_id).len() > 0
        },
{
}

/// Where the buffer at the cursor has its symbols from a language server, its outline is at
/// hand, and the symbols at the cursor are entries of that outline which cover the cursor, in
/// the order of the outline, none taken twice, and each deeper than the one before it.
///
/// Returns, for each symbol, the index of its entry.
pub proof fn law_cursor_symbols_are_outline_items(
    editor: EditorView,
    cursor: Anchor,
    snapshot: MultiBufferSnapshot,
    cx: App,
) -> (indices: Seq<int>)
    requires
        editor.uses_lsp(cursor, snapshot, cx),
    ensures
        ({
            let excerpt = snapshot.excerpt_at(cursor, cursor)->0;
            let buffer = editor.buffer_at(cursor, snapshot)->0;
            let items = editor.symbols_of(excerpt.buffer_id);
            &&& editor.outline_items(excerpt.buffer_id, cx) == TaskView::Ready(items)
            &&& editor.symbols_at(cursor, snapshot) matches Some((id, symbols)) ==> {
                &&& id == excerpt.buffer_id
                &&& taken_in_order(items, indices, cursor.text_anchor, buffer.snapshot)
                &&& symbols == indices.map_values(|i: int| items[i].in_excerpt(excerpt.id))
            }
        }),
{
    let excerpt = snapshot.excerpt_at(cursor, cursor)->0;
    let buffer = editor.buffer_at(cursor, snapshot)->0;
    let items = editor.symbols_of(excerpt.buffer_id);
    law_symbols_cover_cursor(items, cursor.text_anchor, buffer.snapshot, excerpt.id)
}

/// The symbols at a cursor are the ancestor chain that contains it: where the ancestors of what
/// covers the cursor cover it too, they are an entry that covers the cursor, and all of its
/// ancestors, outermost first.
///
/// Returns the index of the innermost entry of the chain.
pub proof fn law_cursor_symbols_are_ancestor_chain(
    editor: EditorView,
    cursor: Anchor,
    snapshot: MultiBufferSnapshot,
) -> (leaf: int)
    requires
        editor.symbols_at(cursor, snapshot) matches Some((_, symbols)) && symbols.len() > 0,
        ancestors_cover(
            editor.symbols_of(snapshot.excerpt_at(cursor, cursor)->0.buffer_id),
            cursor.text_anchor,
            editor.buffer_at(cursor, snapshot)->0.snapshot,
        ),
    ensures
        ({
            let excerpt = snapshot.excerpt_at(cursor, cursor)->0;
            let buffer = editor.buffer_at(cursor, snapshot)->0;
            let items = editor.symbols_of(excerpt.buffer_id);
            &&& 0 <= leaf < items.len()
            &&& items[leaf].contains(cursor.text_anchor, buffer.snapshot)
            &&& editor.symbols_at(cursor, snapshot) == Some(
                (
                    excerpt.buffer_id,
                    ancestor_chain(items, leaf, items.len() as int).map_values(
                        |item: OutlineItemView<text::Anchor>| item.in_excerpt(excerpt.id),
                    ),
                ),
            )
        }),
{
    let excerpt = snapshot.excerpt_at(cursor, cursor)->0;
    let buffer = editor.buffer_at(cursor, snapshot)->0;
    let items = editor.symbols_of(excerpt.buffer_id);
    let found = enclosing(items, cursor.text_anchor, buffer.snapshot);
    lemma_growing_run(
        found.map_values(|item: OutlineItemView<text::Anchor>| item.in_excerpt(excerpt.id)),
    );
    law_ancestor_chain(items, cursor.text_anchor, buffer.snapshot, excerpt.id)
}

/// One editor shows the symbols from the language server while the settings are such, and the
/// outline of the syntax tree while they are not, whichever came before.
pub proof fn law_settings_choose_source(
    editor: EditorView,
    buffer_id: BufferId,
    buffer: Buffer,
    on: App,
    off: App,
)
    requires
        editor.buffer.buffer_with(buffer_id) == Some(buffer),
        lsp_enabled_for(buffer, on),
        !lsp_enabled_for(buffer, off),
    ensures
        editor.outline_items(buffer_id, on) == TaskView::Ready(editor.symbols_of(buffer_id)),
        editor.outline_items(buffer_id, off) == TaskView::Background(
            OutlineRequest { snapshot: buffer.snapshot.id, syntax: off.syntax_theme },
        ),
{
}

} // verus!
