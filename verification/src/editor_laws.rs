//! What the editor's operations give, told by the fields of what they are given.

use vstd::prelude::*;

use crate::cursor_laws::{is_entry_in, law_entries_at_cursor, picks_chain};
use crate::editor::{
    EditorMode, EditorView, TaskView, handles, is_queried, lsp_enabled_for, with_replies,
};
use crate::language::{
    App, Buffer, BufferHandle, DocumentSymbols, SettingsEntry, file_view, has_remote_id, is_about,
    language_view,
};
use crate::lookup::{
    first_where, lemma_first_where_found, lemma_first_where_none, lemma_first_where_place,
};
use crate::multi_buffer::{Anchor, LocatedRange, MultiBuffer, MultiBufferSnapshot, spans};
use crate::outline::OutlineItemView;
use crate::refresh::{RefreshActionView, RefreshEventView, first_of_each, lists};
use crate::text;
use crate::text::BufferId;

verus! {

/// Whether buffer `i` is the first of those shown that has the identity `raw`.
pub open spec fn is_first_shown(buffers: Seq<Buffer>, raw: u64, i: int) -> bool {
    &&& 0 <= i < buffers.len()
    &&& buffers[i].handle.remote_id.raw == raw
    &&& forall|j: int| 0 <= j < i ==> (#[trigger] buffers[j]).handle.remote_id.raw != raw
}

/// The buffer found for an identity is the first of those shown that has it. None is found
/// exactly where none that is shown has it.
pub proof fn law_found_buffer_has_identity(multi_buffer: MultiBuffer, id: BufferId)
    ensures
        multi_buffer.buffer_with(id) matches Some(buffer) ==> {
            &&& buffer.handle.remote_id.raw == id.raw
            &&& multi_buffer.buffers@.contains(buffer)
        },
        forall|i: int| #[trigger]
            is_first_shown(multi_buffer.buffers@, id.raw, i) ==> multi_buffer.buffer_with(id)
                == Some(multi_buffer.buffers@[i]),
        multi_buffer.buffer_with(id) is Some <==> exists|i: int|
            is_first_shown(multi_buffer.buffers@, id.raw, i),
        multi_buffer.buffer_with(id) is None <==> forall|i: int|
            0 <= i < multi_buffer.buffers@.len() ==> (
            #[trigger] multi_buffer.buffers@[i]).handle.remote_id.raw != id.raw,
{
    let shown = multi_buffer.buffers@;
    let wanted = has_remote_id(id);
    assert forall|i: int| #[trigger] is_first_shown(shown, id.raw, i) implies first_where(
        shown,
        wanted,
    ) == Some(shown[i]) by {
        lemma_first_where_found(shown, wanted, i);
    }
    if first_where(shown, wanted) is Some {
        let i = lemma_first_where_place(shown, wanted);
        assert forall|j: int| 0 <= j < i implies (#[trigger] shown[j]).handle.remote_id.raw
            != id.raw by {
            assert(!wanted(shown[j]));
        }
        assert(is_first_shown(shown, id.raw, i));
    } else {
        lemma_first_where_none(shown, wanted);
        assert forall|j: int| 0 <= j < shown.len() implies (#[trigger] shown[j]).handle.remote_id.raw
            != id.raw by {
            assert(!wanted(shown[j]));
        }
    }
}

/// Whether located range `l` is the first that goes from `start` to `end`.
pub open spec fn is_first_located(
    located: Seq<LocatedRange>,
    start: Anchor,
    end: Anchor,
    l: int,
) -> bool {
    &&& 0 <= l < located.len()
    &&& located[l].range.start == start
    &&& located[l].range.end == end
    &&& forall|j: int|
        0 <= j < l ==> (#[trigger] located[j]).range.start != start || located[j].range.end != end
}

/// The excerpt found for a range is that of the first located range which is the same. None is
/// found exactly where none is the same.
pub proof fn law_found_excerpt_is_located(
    snapshot: MultiBufferSnapshot,
    start: Anchor,
    end: Anchor,
)
    ensures
        forall|l: int| #[trigger]
            is_first_located(snapshot.located@, start, end, l) ==> snapshot.excerpt_at(start, end)
                == Some(snapshot.located@[l].excerpt),
        snapshot.excerpt_at(start, end) is Some <==> exists|l: int|
            is_first_located(snapshot.located@, start, end, l),
        snapshot.excerpt_at(start, end) is None <==> forall|l: int|
            0 <= l < snapshot.located@.len() ==> (#[trigger] snapshot.located@[l]).range.start
                != start || snapshot.located@[l].range.end != end,
{
    let located = snapshot.located@;
    let wanted = spans(start, end);
    assert forall|l: int| #[trigger] is_first_located(located, start, end, l) implies first_where(
        located,
        wanted,
    ) == Some(located[l]) by {
        lemma_first_where_found(located, wanted, l);
    }
    if first_where(located, wanted) is Some {
        let l = lemma_first_where_place(located, wanted);
        assert forall|j: int| 0 <= j < l implies (#[trigger] located[j]).range.start != start
            || located[j].range.end != end by {
            assert(!wanted(located[j]));
        }
        assert(is_first_located(located, start, end, l));
    } else {
        lemma_first_where_none(located, wanted);
        assert forall|j: int| 0 <= j < located.len() implies (#[trigger] located[j]).range.start
            != start || located[j].range.end != end by {
            assert(!wanted(located[j]));
        }
    }
}

/// Whether an entry is about the language and the file of a buffer: the same name, or none on
/// either side, and the same worktree and path, or no file on either side.
pub open spec fn is_about_buffer(entry: SettingsEntry, buffer: Buffer) -> bool {
    &&& match (entry.language, buffer.language) {
        (Some(a), Some(b)) => a.name@ == b.name@,
        (None, None) => true,
        _ => false,
    }
    &&& match (entry.file, buffer.file) {
        (Some(a), Some(b)) => a.worktree_id == b.worktree_id && a.path@ == b.path@,
        (None, None) => true,
        _ => false,
    }
}

/// Whether entry `i` is the first that is about the language and the file of a buffer.
pub open spec fn is_first_about(entries: Seq<SettingsEntry>, buffer: Buffer, i: int) -> bool {
    &&& 0 <= i < entries.len()
    &&& is_about_buffer(entries[i], buffer)
    &&& forall|j: int| 0 <= j < i ==> !is_about_buffer(#[trigger] entries[j], buffer)
}

/// Whether the settings in force for a buffer say that its symbols come from a language server:
/// the first entry about its language and file does, or the defaults do and there is none.
pub open spec fn server_is_source(buffer: Buffer, cx: App) -> bool {
    ||| exists|i: int| #[trigger]
        is_first_about(cx.settings@, buffer, i) && cx.settings@[i].settings.document_symbols
            == DocumentSymbols::On
    ||| (cx.defaults.document_symbols == DocumentSymbols::On && forall|i: int|
        0 <= i < cx.settings@.len() ==> !is_about_buffer(#[trigger] cx.settings@[i], buffer))
}

/// Symbols of a buffer come from a language server exactly where the first entry about the
/// buffer's language and file says so, or, where no entry is about them, the defaults say so.
pub proof fn law_setting_in_force(buffer: Buffer, cx: App)
    ensures
        lsp_enabled_for(buffer, cx) == server_is_source(buffer, cx),
        forall|i: int| #[trigger]
            is_first_about(cx.settings@, buffer, i) ==> (lsp_enabled_for(buffer, cx) <==>
            cx.settings@[i].settings.document_symbols == DocumentSymbols::On),
        (forall|i: int|
            0 <= i < cx.settings@.len() ==> !is_about_buffer(#[trigger] cx.settings@[i], buffer))
            ==> (lsp_enabled_for(buffer, cx) <==> cx.defaults.document_symbols
            == DocumentSymbols::On),
{
    let entries = cx.settings@;
    let wanted = is_about(language_view(buffer.language), file_view(buffer.file));
    assert forall|i: int| 0 <= i < entries.len() implies wanted(#[trigger] entries[i])
        == is_about_buffer(entries[i], buffer) by {}
    assert forall|i: int| #[trigger] is_first_about(entries, buffer, i) implies first_where(
        entries,
        wanted,
    ) == Some(entries[i]) by {
        assert forall|j: int| 0 <= j < i implies !wanted(#[trigger] entries[j]) by {
            assert(!is_about_buffer(entries[j], buffer));
        }
        lemma_first_where_found(entries, wanted, i);
    }
    if first_where(entries, wanted) is Some {
        let i = lemma_first_where_place(entries, wanted);
        assert forall|j: int| 0 <= j < i implies !is_about_buffer(#[trigger] entries[j], buffer) by {
            assert(!wanted(entries[j]));
        }
        assert(is_first_about(entries, buffer, i));
    } else {
        lemma_first_where_none(entries, wanted);
        assert forall|j: int| 0 <= j < entries.len() implies !is_about_buffer(
            #[trigger] entries[j],
            buffer,
        ) by {
            assert(!wanted(entries[j]));
        }
    }
}

/// The outline of a buffer is empty where no buffer with its identity is shown. Else it goes by
/// the first that is shown with it: where the settings in force say so, it is the symbols that the
/// editor has under that identity, or none where it has none; where they do not, it is the outline
/// of that buffer's snapshot, in the theme in force.
pub proof fn law_outline_is_of_the_buffer(editor: EditorView, id: BufferId, cx: App)
    ensures
        ({
            let shown = editor.buffer.buffers@;
            let outline = editor.outline_items(id, cx);
            &&& (forall|i: int|
                0 <= i < shown.len() ==> (#[trigger] shown[i]).handle.remote_id.raw != id.raw)
                ==> outline == TaskView::Ready(Seq::empty())
            &&& forall|i: int| #[trigger]
                is_first_shown(shown, id.raw, i) ==> if server_is_source(shown[i], cx) {
                    &&& outline is Ready
                    &&& editor.symbols.contains_key(id.raw) ==> outline->Ready_0
                        == editor.symbols[id.raw]
                    &&& !editor.symbols.contains_key(id.raw) ==> outline->Ready_0.len() == 0
                } else {
                    &&& outline is Background
                    &&& outline->Background_0.snapshot == shown[i].snapshot.id
                    &&& outline->Background_0.syntax == cx.syntax_theme
                }
        }),
{
    let shown = editor.buffer.buffers@;
    law_found_buffer_has_identity(editor.buffer, id);
    assert forall|i: int| #[trigger] is_first_shown(shown, id.raw, i) implies lsp_enabled_for(
        shown[i],
        cx,
    ) == server_is_source(shown[i], cx) by {
        law_setting_in_force(shown[i], cx);
    }
}

/// The buffer at the cursor has its symbols from a language server exactly where the cursor lies
/// in an excerpt, a buffer with the identity of the excerpt's is shown, and the settings in force
/// for the first such buffer say so.
pub proof fn law_uses_lsp_by_setting(
    editor: EditorView,
    cursor: Anchor,
    snapshot: MultiBufferSnapshot,
    cx: App,
)
    ensures
        editor.uses_lsp(cursor, snapshot, cx) <==> exists|l: int, i: int| #[trigger]
            is_first_located(snapshot.located@, cursor, cursor, l) && #[trigger] is_first_shown(
                editor.buffer.buffers@,
                snapshot.located@[l].excerpt.buffer_id.raw,
                i,
            ) && server_is_source(editor.buffer.buffers@[i], cx),
        forall|l: int, i: int| #[trigger]
            is_first_located(snapshot.located@, cursor, cursor, l) && #[trigger] is_first_shown(
                editor.buffer.buffers@,
                snapshot.located@[l].excerpt.buffer_id.raw,
                i,
            ) ==> editor.uses_lsp(cursor, snapshot, cx) == server_is_source(
                editor.buffer.buffers@[i],
                cx,
            ),
{
    let shown = editor.buffer.buffers@;
    let located = snapshot.located@;
    law_found_excerpt_is_located(snapshot, cursor, cursor);
    assert forall|l: int, i: int| #[trigger]
        is_first_located(located, cursor, cursor, l) && #[trigger] is_first_shown(
            shown,
            located[l].excerpt.buffer_id.raw,
            i,
        ) implies editor.uses_lsp(cursor, snapshot, cx) == server_is_source(shown[i], cx) by {
        law_found_buffer_has_identity(editor.buffer, located[l].excerpt.buffer_id);
        law_setting_in_force(shown[i], cx);
    }
    if editor.uses_lsp(cursor, snapshot, cx) {
        let l = choose|l: int| is_first_located(located, cursor, cursor, l);
        let id = located[l].excerpt.buffer_id;
        law_found_buffer_has_identity(editor.buffer, id);
        let i = choose|i: int| is_first_shown(shown, id.raw, i);
        assert(is_first_located(located, cursor, cursor, l) && is_first_shown(shown, id.raw, i));
    }
}

/// Whether the cursor uses a language server, and which buffers are asked about, does not depend
/// on the symbols that the editor has or on the refresh that is under way.
pub proof fn law_known_symbols_decide_nothing(
    editor: EditorView,
    other: EditorView,
    cursor: Anchor,
    snapshot: MultiBufferSnapshot,
    for_buffer: Option<BufferId>,
    cx: App,
)
    requires
        other.mode == editor.mode,
        other.project == editor.project,
        other.buffer == editor.buffer,
    ensures
        other.uses_lsp(cursor, snapshot, cx) == editor.uses_lsp(cursor, snapshot, cx),
        other.to_query(for_buffer, cx) == editor.to_query(for_buffer, cx),
        other.refreshed(for_buffer, cx).1 is Some <==> editor.refreshed(for_buffer, cx).1 is Some,
{
}

/// Where the cursor lies in an excerpt of a shown buffer that the editor has symbols of, the
/// symbols at the cursor are under that buffer's identity, and are the chain that the cursor's
/// number picks among them by the numbers of the buffer's snapshot, moved into the excerpt. Where
/// the editor has none of that buffer there are none.
///
/// Returns the places of the chain's entries among the symbols of the buffer.
pub proof fn law_symbols_at_cursor_are_picked(
    editor: EditorView,
    cursor: Anchor,
    snapshot: MultiBufferSnapshot,
    l: int,
    i: int,
) -> (indices: Seq<int>)
    requires
        is_first_located(snapshot.located@, cursor, cursor, l),
        is_first_shown(
            editor.buffer.buffers@,
            snapshot.located@[l].excerpt.buffer_id.raw,
            i,
        ),
    ensures
        ({
            let excerpt = snapshot.located@[l].excerpt;
            let raw = excerpt.buffer_id.raw;
            let positions = editor.buffer.buffers@[i].snapshot.positions@;
            let found = editor.symbols_at(cursor, snapshot);
            if editor.symbols.contains_key(raw) && editor.symbols[raw].len() > 0 {
                let items = editor.symbols[raw];
                &&& found matches Some((id, symbols))
                &&& id.raw == raw
                &&& picks_chain(items, indices, cursor.text_anchor, positions)
                &&& symbols.len() == indices.len()
                &&& forall|k: int|
                    0 <= k < indices.len() ==> is_entry_in(
                        symbols[k],
                        items[#[trigger] indices[k]],
                        excerpt.id,
                    )
            } else {
                found is None
            }
        }),
{
    let excerpt = snapshot.located@[l].excerpt;
    law_found_excerpt_is_located(snapshot, cursor, cursor);
    law_found_buffer_has_identity(editor.buffer, excerpt.buffer_id);
    law_entries_at_cursor(
        editor.symbols_of(excerpt.buffer_id),
        cursor.text_anchor,
        editor.buffer.buffers@[i].snapshot,
        excerpt.id,
    )
}

/// Where the cursor lies in no excerpt, or in one of a buffer that is not shown, there are no
/// symbols at it.
pub proof fn law_no_symbols_outside_shown_buffers(
    editor: EditorView,
    cursor: Anchor,
    snapshot: MultiBufferSnapshot,
)
    requires
        forall|l: int| #[trigger]
            is_first_located(snapshot.located@, cursor, cursor, l) ==> forall|i: int|
                0 <= i < editor.buffer.buffers@.len() ==> (
                #[trigger] editor.buffer.buffers@[i]).handle.remote_id.raw
                    != snapshot.located@[l].excerpt.buffer_id.raw,
    ensures
        editor.symbols_at(cursor, snapshot) is None,
{
    law_found_excerpt_is_located(snapshot, cursor, cursor);
    if editor.symbols_at(cursor, snapshot) is Some {
        let l = choose|l: int| is_first_located(snapshot.located@, cursor, cursor, l);
        law_found_buffer_has_identity(editor.buffer, snapshot.located@[l].excerpt.buffer_id);
    }
}

/// Whether a refresh for `for_buffer` is about a buffer: it is for all buffers or for that one, and
/// the settings in force say that the buffer's symbols come from a language server.
pub open spec fn is_asked_about(for_buffer: Option<BufferId>, buffer: Buffer, cx: App) -> bool {
    &&& for_buffer matches Some(target) ==> target.raw == buffer.handle.remote_id.raw
    &&& server_is_source(buffer, cx)
}

proof fn lemma_is_queried(for_buffer: Option<BufferId>, buffer: Buffer, cx: App)
    ensures
        is_queried(for_buffer, cx)(buffer) == is_asked_about(for_buffer, buffer, cx),
{
    law_setting_in_force(buffer, cx);
}

/// Whether buffer `i` is the first of those asked about that has its identity.
pub open spec fn is_first_asked_about(
    shown: Seq<Buffer>,
    for_buffer: Option<BufferId>,
    cx: App,
    i: int,
) -> bool {
    &&& 0 <= i < shown.len()
    &&& is_asked_about(for_buffer, shown[i], cx)
    &&& forall|j: int|
        0 <= j < i && is_asked_about(for_buffer, #[trigger] shown[j], cx)
            ==> shown[j].handle.remote_id.raw != shown[i].handle.remote_id.raw
}

/// The places below `n` of the buffers that are the first asked about with their identity.
spec fn asked_places(shown: Seq<Buffer>, for_buffer: Option<BufferId>, cx: App, n: int) -> Seq<int>
    decreases n,
{
    if n <= 0 {
        Seq::empty()
    } else {
        let before = asked_places(shown, for_buffer, cx, n - 1);
        if is_first_asked_about(shown, for_buffer, cx, n - 1) {
            before.push(n - 1)
        } else {
            before
        }
    }
}

proof fn lemma_listed_when_asked(
    shown: Seq<Buffer>,
    for_buffer: Option<BufferId>,
    cx: App,
    n: int,
    id: BufferId,
)
    requires
        0 <= n <= shown.len(),
    ensures
        lists(handles(shown.take(n).filter(is_queried(for_buffer, cx))), id) <==> exists|j: int|
            0 <= j < n && is_asked_about(for_buffer, #[trigger] shown[j], cx)
                && shown[j].handle.remote_id.raw == id.raw,
{
    let queried = is_queried(for_buffer, cx);
    let first = shown.take(n);
    let chosen = first.filter(queried);
    let all = handles(chosen);
    if lists(all, id) {
        let k = choose|k: int| 0 <= k < all.len() && (#[trigger] all[k]).remote_id == id;
        first.lemma_filter_pred(queried, k);
        assert(chosen.contains(chosen[k]));
        first.lemma_filter_contains_rev(queried, chosen[k]);
        let j = choose|j: int| 0 <= j < first.len() && first[j] == chosen[k];
        lemma_is_queried(for_buffer, shown[j], cx);
        assert(is_asked_about(for_buffer, shown[j], cx));
    }
    if exists|j: int|
        0 <= j < n && is_asked_about(for_buffer, #[trigger] shown[j], cx)
            && shown[j].handle.remote_id.raw == id.raw {
        let j = choose|j: int|
            0 <= j < n && is_asked_about(for_buffer, #[trigger] shown[j], cx)
                && shown[j].handle.remote_id.raw == id.raw;
        lemma_is_queried(for_buffer, shown[j], cx);
        assert(first[j] == shown[j]);
        first.lemma_filter_contains(queried, j);
        let k = choose|k: int| 0 <= k < chosen.len() && chosen[k] == first[j];
        assert(all[k].remote_id == id);
    }
}

proof fn lemma_asked_places(shown: Seq<Buffer>, for_buffer: Option<BufferId>, cx: App, n: int)
    requires
        0 <= n <= shown.len(),
    ensures
        ({
            let places = asked_places(shown, for_buffer, cx, n);
            let asked = first_of_each(handles(shown.take(n).filter(is_queried(for_buffer, cx))));
            &&& asked.len() == places.len()
            &&& forall|k: int|
                0 <= k < places.len() ==> 0 <= #[trigger] places[k] < n && is_first_asked_about(
                    shown,
                    for_buffer,
                    cx,
                    places[k],
                ) && asked[k] == shown[places[k]].handle
            &&& forall|k: int, l: int|
                0 <= k < l < places.len() ==> #[trigger] places[k] < #[trigger] places[l]
            &&& forall|i: int|
                0 <= i < n && #[trigger] is_first_asked_about(shown, for_buffer, cx, i)
                    ==> places.contains(i)
        }),
    decreases n,
{
    reveal(Seq::filter);
    let queried = is_queried(for_buffer, cx);
    let places = asked_places(shown, for_buffer, cx, n);
    let all = handles(shown.take(n).filter(queried));
    if n == 0 {
        assert(all =~= Seq::empty());
    } else {
        let before = asked_places(shown, for_buffer, cx, n - 1);
        let last = shown[n - 1];
        let shorter = handles(shown.take(n - 1).filter(queried));
        lemma_asked_places(shown, for_buffer, cx, n - 1);
        assert(shown.take(n).drop_last() =~= shown.take(n - 1));
        assert(shown.take(n).last() == last);
        lemma_is_queried(for_buffer, last, cx);
        if queried(last) {
            assert(all =~= shorter.push(last.handle));
            assert(all.drop_last() =~= shorter);
            lemma_listed_when_asked(shown, for_buffer, cx, n - 1, last.handle.remote_id);
            assert(lists(shorter, last.handle.remote_id) == !is_first_asked_about(
                shown,
                for_buffer,
                cx,
                n - 1,
            ));
        } else {
            assert(all =~= shorter);
        }
        if is_first_asked_about(shown, for_buffer, cx, n - 1) {
            assert(places[places.len() - 1] == n - 1);
        }
        assert forall|i: int|
            0 <= i < n && #[trigger] is_first_asked_about(shown, for_buffer, cx, i) implies
            places.contains(i) by {
            if i < n - 1 {
                let k = choose|k: int| 0 <= k < before.len() && before[k] == i;
                assert(places[k] == i);
            }
        }
    }
}

/// A refresh asks, in the order in which they are shown, about the buffers that are the first of
/// those asked about with their identity, and about no others.
///
/// Returns the places of these buffers among those shown.
pub proof fn law_queried_are_first_asked_about(
    editor: EditorView,
    for_buffer: Option<BufferId>,
    cx: App,
) -> (places: Seq<int>)
    ensures
        editor.to_query(for_buffer, cx).len() == places.len(),
        forall|k: int|
            0 <= k < places.len() ==> is_first_asked_about(
                editor.buffer.buffers@,
                for_buffer,
                cx,
                #[trigger] places[k],
            ) && editor.to_query(for_buffer, cx)[k] == editor.buffer.buffers@[places[k]].handle,
        forall|k: int, l: int|
            0 <= k < l < places.len() ==> #[trigger] places[k] < #[trigger] places[l],
        forall|i: int| #[trigger]
            is_first_asked_about(editor.buffer.buffers@, for_buffer, cx, i) ==> places.contains(i),
{
    let shown = editor.buffer.buffers@;
    let size = shown.len() as int;
    lemma_asked_places(shown, for_buffer, cx, size);
    assert(shown.take(size) =~= shown);
    asked_places(shown, for_buffer, cx, size)
}

/// Of the buffers asked about with the identity of buffer `i`, one is the first.
proof fn lemma_some_is_first(
    shown: Seq<Buffer>,
    for_buffer: Option<BufferId>,
    cx: App,
    i: int,
) -> (first: int)
    requires
        0 <= i < shown.len(),
        is_asked_about(for_buffer, shown[i], cx),
    ensures
        is_first_asked_about(shown, for_buffer, cx, first),
    decreases i,
{
    if is_first_asked_about(shown, for_buffer, cx, i) {
        i
    } else {
        let j = choose|j: int|
            0 <= j < i && is_asked_about(for_buffer, #[trigger] shown[j], cx)
                && shown[j].handle.remote_id.raw == shown[i].handle.remote_id.raw;
        lemma_some_is_first(shown, for_buffer, cx, j)
    }
}

/// A refresh starts exactly where the editor is in full mode, has a project, and shows a buffer
/// that the refresh is about. One that starts waits for its timer, under a number that no earlier
/// refresh has just had, for the editor's project and the buffers that it asks about. All else
/// stays, and one that does not start leaves everything.
pub proof fn law_refresh_starts_when_there_is_something_to_fetch(
    editor: EditorView,
    for_buffer: Option<BufferId>,
    cx: App,
)
    ensures
        ({
            let (after, action) = editor.refreshed(for_buffer, cx);
            &&& action is Some <==> {
                &&& editor.mode == EditorMode::Full
                &&& editor.project is Some
                &&& exists|i: int|
                    0 <= i < editor.buffer.buffers@.len() && is_asked_about(
                        for_buffer,
                        #[trigger] editor.buffer.buffers@[i],
                        cx,
                    )
            }
            &&& after.mode == editor.mode
            &&& after.project == editor.project
            &&& after.buffer == editor.buffer
            &&& after.symbols == editor.symbols
            &&& action is None ==> after == editor
            &&& action is Some ==> {
                &&& action->0 is Debounce
                &&& action->0->Debounce_id == after.latest_refresh
                &&& after.latest_refresh != editor.latest_refresh
                &&& after.task is Debouncing
                &&& after.task->Debouncing_id == after.latest_refresh
                &&& after.task->Debouncing_project == editor.project->0
                &&& after.task->Debouncing_buffers == editor.to_query(for_buffer, cx)
            }
        }),
{
    let shown = editor.buffer.buffers@;
    let places = law_queried_are_first_asked_about(editor, for_buffer, cx);
    if places.len() > 0 {
        assert(is_first_asked_about(shown, for_buffer, cx, places[0]));
        assert(is_asked_about(for_buffer, shown[places[0]], cx));
    }
    if exists|i: int|
        0 <= i < shown.len() && is_asked_about(for_buffer, #[trigger] shown[i], cx) {
        let i = choose|i: int|
            0 <= i < shown.len() && is_asked_about(for_buffer, #[trigger] shown[i], cx);
        let first = lemma_some_is_first(shown, for_buffer, cx, i);
        assert(places.contains(first));
    }
}

/// Whether reply `k` is the last of the first `n` that is for the identity `raw`.
pub open spec fn is_last_reply(buffers: Seq<BufferHandle>, n: int, raw: u64, k: int) -> bool {
    &&& 0 <= k < n
    &&& buffers[k].remote_id.raw == raw
    &&& forall|j: int| k < j < n ==> (#[trigger] buffers[j]).remote_id.raw != raw
}

proof fn lemma_stored_replies(
    symbols: Map<u64, Seq<OutlineItemView<text::Anchor>>>,
    buffers: Seq<BufferHandle>,
    replies: Seq<Seq<OutlineItemView<text::Anchor>>>,
    n: int,
    raw: u64,
)
    requires
        0 <= n <= buffers.len(),
    ensures
        forall|k: int| #[trigger]
            is_last_reply(buffers, n, raw, k) ==> with_replies(
                symbols,
                buffers,
                replies,
                n,
            ).contains_key(raw) && with_replies(symbols, buffers, replies, n)[raw] == replies[k],
        (forall|k: int| 0 <= k < n ==> (#[trigger] buffers[k]).remote_id.raw != raw) ==> (
        with_replies(symbols, buffers, replies, n).contains_key(raw) == symbols.contains_key(raw)
            && with_replies(symbols, buffers, replies, n)[raw] == symbols[raw]),
    decreases n,
{
    if n > 0 {
        lemma_stored_replies(symbols, buffers, replies, n - 1, raw);
        assert forall|k: int| #[trigger] is_last_reply(buffers, n, raw, k) implies with_replies(
            symbols,
            buffers,
            replies,
            n,
        ).contains_key(raw) && with_replies(symbols, buffers, replies, n)[raw] == replies[k] by {
            if k < n - 1 {
                assert(buffers[n - 1].remote_id.raw != raw);
                assert(is_last_reply(buffers, n - 1, raw, k));
            }
        }
    }
}

/// That the timer of the refresh under way ran out makes the host ask for the symbols of exactly
/// its buffers, from its project, and changes nothing but what the refresh waits for.
pub proof fn law_timer_leads_to_fetch(editor: EditorView)
    requires
        editor.task is Debouncing,
    ensures
        ({
            let id = editor.task->Debouncing_id;
            let (after, action) = editor.advanced(RefreshEventView::DebounceElapsed { id });
            &&& action is Some
            &&& action->0 is FetchDocumentSymbols
            &&& action->0->FetchDocumentSymbols_id == id
            &&& action->0->project == editor.task->Debouncing_project
            &&& action->0->FetchDocumentSymbols_buffers == editor.task->Debouncing_buffers
            &&& after.task is Fetching
            &&& after.task->Fetching_id == id
            &&& after.task->Fetching_buffers == editor.task->Debouncing_buffers
            &&& after.mode == editor.mode
            &&& after.project == editor.project
            &&& after.buffer == editor.buffer
            &&& after.symbols == editor.symbols
            &&& after.latest_refresh == editor.latest_refresh
        }),
{
}

/// Replies to the refresh under way are stored, each under the identity of the buffer at the same
/// place, the last where several are for one identity, in place of what was there. What the editor
/// has under other identities stays. The host is then asked for the symbols at the cursor, and
/// nothing is under way any more.
pub proof fn law_replies_are_stored_by_place(
    editor: EditorView,
    replies: Seq<Seq<OutlineItemView<text::Anchor>>>,
    raw: u64,
)
    requires
        editor.task is Fetching,
    ensures
        ({
            let buffers = editor.task->Fetching_buffers;
            let id = editor.task->Fetching_id;
            let n = if buffers.len() <= replies.len() {
                buffers.len() as int
            } else {
                replies.len() as int
            };
            let (after, action) = editor.advanced(
                RefreshEventView::SymbolsFetched { id, replies },
            );
            &&& action is Some
            &&& action->0 is RefreshOutlineSymbolsAtCursor
            &&& after.task is Ready
            &&& after.mode == editor.mode
            &&& after.project == editor.project
            &&& after.buffer == editor.buffer
            &&& after.latest_refresh == editor.latest_refresh
            &&& forall|k: int| #[trigger]
                is_last_reply(buffers, n, raw, k) ==> after.symbols.contains_key(raw)
                    && after.symbols[raw] == replies[k]
            &&& (forall|k: int| 0 <= k < n ==> (#[trigger] buffers[k]).remote_id.raw != raw) ==> (
            after.symbols.contains_key(raw) == editor.symbols.contains_key(raw)
                && after.symbols[raw] == editor.symbols[raw])
        }),
{
    let buffers = editor.task->Fetching_buffers;
    let n = if buffers.len() <= replies.len() {
        buffers.len() as int
    } else {
        replies.len() as int
    };
    lemma_stored_replies(editor.symbols, buffers, replies, n, raw);
}

/// That the editor is gone ends the refresh under way and changes nothing else. Any other event
/// that is not the one waited for, or carries another number, changes nothing at all.
pub proof fn law_unexpected_events_change_nothing(editor: EditorView, event: RefreshEventView)
    ensures
        event is EditorReleased ==> {
            let (after, action) = editor.advanced(event);
            &&& action is None
            &&& after.task is Ready
            &&& after.mode == editor.mode
            &&& after.project == editor.project
            &&& after.buffer == editor.buffer
            &&& after.symbols == editor.symbols
            &&& after.latest_refresh == editor.latest_refresh
        },
        event is DebounceElapsed && !(editor.task is Debouncing && editor.task->Debouncing_id
            == event->DebounceElapsed_id) ==> editor.advanced(event) == (
            editor,
            None::<RefreshActionView>,
        ),
        event is SymbolsFetched && !(editor.task is Fetching && editor.task->Fetching_id
            == event->SymbolsFetched_id) ==> editor.advanced(event) == (
            editor,
            None::<RefreshActionView>,
        ),
{
}

} // verus!
