//! The editor's side of document symbols.

use std::collections::HashMap;
use vstd::prelude::*;

use crate::language::{
    App, Buffer, BufferHandle, DocumentSymbols, SyntaxTheme, file_view, language_settings,
    language_view,
};
use crate::multi_buffer::{Anchor, MultiBuffer, MultiBufferSnapshot};
use crate::outline::{
    OutlineItem, OutlineItemView, copy_items, entries_at, items_at_cursor, items_view,
};
use crate::refresh::{
    Project, RefreshAction, RefreshActionView, RefreshEvent, RefreshEventView, RefreshId,
    RefreshTask, RefreshTaskView, action_view, first_of_each, replies_view, unique_by_remote_id,
};
use crate::text;
use crate::text::{BufferId, SnapshotId};

verus! {

broadcast use vstd::std_specs::hash::group_hash_axioms;

/// What an editor is used as.
#[derive(Clone, Copy, Debug, PartialEq, Eq, Structural)]
pub enum EditorMode {
    SingleLine,
    AutoHeight,
    Full,
    Minimap,
}

impl EditorMode {
    /// Tells whether the editor shows whole files.
    pub fn is_full(&self) -> (result: bool)
        ensures
            result == (*self == EditorMode::Full),
    {
        match self {
            EditorMode::Full => true,
            _ => false,
        }
    }
}

/// A request for the outline that follows from a buffer's syntax tree.
#[derive(Clone, Copy, Debug, PartialEq, Eq, Structural)]
pub struct OutlineRequest {
    pub snapshot: SnapshotId,
    pub syntax: SyntaxTheme,
}

/// Outline entries that are there already, or that have to be worked out in the background.
#[derive(Debug, PartialEq)]
pub enum Task {
    /// The entries.
    Ready(Vec<OutlineItem<text::Anchor>>),
    /// The entries are the items of the outline that is asked for.
    Background(OutlineRequest),
}

/// The contents of a `Task`.
#[verifier::ext_equal]
pub enum TaskView {
    Ready(Seq<OutlineItemView<text::Anchor>>),
    Background(OutlineRequest),
}

impl View for Task {
    type V = TaskView;

    open spec fn view(&self) -> TaskView {
        match *self {
            Task::Ready(items) => TaskView::Ready(items_view(items@)),
            Task::Background(request) => TaskView::Background(request),
        }
    }
}

/// Symbols by the identity of the buffer that they are of.
pub type SymbolsById = Map<u64, Seq<OutlineItemView<text::Anchor>>>;

/// An editor, as far as it deals with document symbols.
#[derive(Debug)]
pub struct Editor {
    pub mode: EditorMode,
    pub project: Option<Project>,
    pub buffer: MultiBuffer,
    /// The symbols that language servers last reported, by the identity of the buffer.
    pub lsp_document_symbols: HashMap<u64, Vec<OutlineItem<text::Anchor>>>,
    pub refresh_document_symbols_task: RefreshTask,
    /// The number of the refresh that was started last.
    pub latest_refresh: RefreshId,
}

/// The contents of an `Editor`.
#[verifier::ext_equal]
pub struct EditorView {
    pub mode: EditorMode,
    pub project: Option<Project>,
    pub buffer: MultiBuffer,
    pub symbols: SymbolsById,
    pub task: RefreshTaskView,
    pub latest_refresh: RefreshId,
}

impl View for Editor {
    type V = EditorView;

    open spec fn view(&self) -> EditorView {
        EditorView {
            mode: self.mode,
            project: self.project,
            buffer: self.buffer,
            symbols: symbols_view(self.lsp_document_symbols@),
            task: self.refresh_document_symbols_task@,
            latest_refresh: self.latest_refresh,
        }
    }
}

/// The contents of a map of symbols.
pub open spec fn symbols_view(symbols: Map<u64, Vec<OutlineItem<text::Anchor>>>) -> SymbolsById {
    symbols.map_values(|items: Vec<OutlineItem<text::Anchor>>| items_view(items@))
}

/// Whether the settings let the symbols of `buffer` come from a language server.
pub open spec fn lsp_enabled_for(buffer: Buffer, cx: App) -> bool {
    cx.settings_for(language_view(buffer.language), file_view(buffer.file)).document_symbols
        == DocumentSymbols::On
}

/// The condition that a refresh for `for_buffer` is about a buffer. With no buffer given it is
/// about all that have their symbols from a language server.
pub open spec fn is_queried(for_buffer: Option<BufferId>, cx: App) -> spec_fn(Buffer) -> bool {
    |buffer: Buffer|
        (for_buffer is None || for_buffer == Some(buffer.handle.remote_id)) && lsp_enabled_for(
            buffer,
            cx,
        )
}

/// The handles of buffers.
pub open spec fn handles(buffers: Seq<Buffer>) -> Seq<BufferHandle> {
    buffers.map_values(|buffer: Buffer| buffer.handle)
}

/// `symbols` with the first `n` replies stored, each under the buffer at the same place.
pub open spec fn with_replies(
    symbols: SymbolsById,
    buffers: Seq<BufferHandle>,
    replies: Seq<Seq<OutlineItemView<text::Anchor>>>,
    n: int,
) -> SymbolsById
    decreases n,
{
    if n <= 0 {
        symbols
    } else {
        with_replies(symbols, buffers, replies, n - 1).insert(
            buffers[n - 1].remote_id.raw,
            replies[n - 1],
        )
    }
}

/// How many of the buffers asked about have a reply.
pub open spec fn answered(
    buffers: Seq<BufferHandle>,
    replies: Seq<Seq<OutlineItemView<text::Anchor>>>,
) -> int {
    if buffers.len() <= replies.len() {
        buffers.len() as int
    } else {
        replies.len() as int
    }
}

impl EditorView {
    /// The symbols known of a buffer: none, where no server has reported any.
    pub open spec fn symbols_of(self, buffer_id: BufferId) -> Seq<OutlineItemView<text::Anchor>> {
        if self.symbols.contains_key(buffer_id.raw) {
            self.symbols[buffer_id.raw]
        } else {
            Seq::empty()
        }
    }

    /// The outline entries of a buffer.
    pub open spec fn outline_items(self, buffer_id: BufferId, cx: App) -> TaskView {
        match self.buffer.buffer_with(buffer_id) {
            None => TaskView::Ready(Seq::empty()),
            Some(buffer) => if lsp_enabled_for(buffer, cx) {
                TaskView::Ready(self.symbols_of(buffer_id))
            } else {
                TaskView::Background(
                    OutlineRequest { snapshot: buffer.snapshot.id, syntax: cx.syntax_theme },
                )
            },
        }
    }

    /// The buffer that the cursor is in.
    pub open spec fn buffer_at(self, cursor: Anchor, snapshot: MultiBufferSnapshot) -> Option<
        Buffer,
    > {
        match snapshot.excerpt_at(cursor, cursor) {
            None => None,
            Some(excerpt) => self.buffer.buffer_with(excerpt.buffer_id),
        }
    }

    /// Whether the buffer that the cursor is in has its symbols from a language server.
    pub open spec fn uses_lsp(
        self,
        cursor: Anchor,
        snapshot: MultiBufferSnapshot,
        cx: App,
    ) -> bool {
        match self.buffer_at(cursor, snapshot) {
            None => false,
            Some(buffer) => lsp_enabled_for(buffer, cx),
        }
    }

    /// The buffer that the cursor is in, and the chain of its symbols at the cursor, from the
    /// outside in.
    pub open spec fn symbols_at(self, cursor: Anchor, snapshot: MultiBufferSnapshot) -> Option<
        (BufferId, Seq<OutlineItemView<Anchor>>),
    > {
        match (snapshot.excerpt_at(cursor, cursor), self.buffer_at(cursor, snapshot)) {
            (Some(excerpt), Some(buffer)) => {
                let items = self.symbols_of(excerpt.buffer_id);
                if items.len() == 0 {
                    None
                } else {
                    Some(
                        (
                            excerpt.buffer_id,
                            entries_at(items, cursor.text_anchor, buffer.snapshot, excerpt.id),
                        ),
                    )
                }
            },
            _ => None,
        }
    }

    /// The buffers that a refresh asks about.
    pub open spec fn to_query(self, for_buffer: Option<BufferId>, cx: App) -> Seq<BufferHandle> {
        first_of_each(handles(self.buffer.buffers@.filter(is_queried(for_buffer, cx))))
    }

    /// The project and the buffers that a refresh asks about, where there is one to start.
    pub open spec fn refresh_target(self, for_buffer: Option<BufferId>, cx: App) -> Option<
        (Project, Seq<BufferHandle>),
    > {
        let buffers = self.to_query(for_buffer, cx);
        if self.mode == EditorMode::Full && self.project is Some && buffers.len() > 0 {
            Some((self.project->0, buffers))
        } else {
            None
        }
    }

    /// The editor after a refresh has been started, and what the host is to do.
    pub open spec fn refreshed(self, for_buffer: Option<BufferId>, cx: App) -> (
        EditorView,
        Option<RefreshActionView>,
    ) {
        match self.refresh_target(for_buffer, cx) {
            None => (self, None),
            Some((project, buffers)) => {
                let id = self.latest_refresh.successor();
                (
                    EditorView {
                        task: RefreshTaskView::Debouncing { id, project, buffers },
                        latest_refresh: id,
                        ..self
                    },
                    Some(RefreshActionView::Debounce { id }),
                )
            },
        }
    }

    /// The editor after an event has reached its refresh, and what the host is to do.
    pub open spec fn advanced(self, event: RefreshEventView) -> (
        EditorView,
        Option<RefreshActionView>,
    ) {
        match (self.task, event) {
            (_, RefreshEventView::EditorReleased) => (
                EditorView { task: RefreshTaskView::Ready, ..self },
                None,
            ),
            (
                RefreshTaskView::Debouncing { id, project, buffers },
                RefreshEventView::DebounceElapsed { id: reported },
            ) => if reported == id {
                (
                    EditorView { task: RefreshTaskView::Fetching { id, buffers }, ..self },
                    Some(RefreshActionView::FetchDocumentSymbols { id, project, buffers }),
                )
            } else {
                (self, None)
            },
            (
                RefreshTaskView::Fetching { id, buffers },
                RefreshEventView::SymbolsFetched { id: reported, replies },
            ) => if reported == id {
                (
                    EditorView {
                        task: RefreshTaskView::Ready,
                        symbols: with_replies(
                            self.symbols,
                            buffers,
                            replies,
                            answered(buffers, replies),
                        ),
                        ..self
                    },
                    Some(RefreshActionView::RefreshOutlineSymbolsAtCursor),
                )
            } else {
                (self, None)
            },
            _ => (self, None),
        }
    }
}

/// The contents of the symbols at a cursor.
pub open spec fn symbols_at_view(
    symbols: Option<(BufferId, Vec<OutlineItem<Anchor>>)>,
) -> Option<(BufferId, Seq<OutlineItemView<Anchor>>)> {
    match symbols {
        Some((buffer_id, items)) => Some((buffer_id, items_view(items@))),
        None => None,
    }
}

impl Editor {
    /// Gives the outline entries of a buffer: the symbols from its language server or those of
    /// its syntax tree, as the settings say.
    pub fn buffer_outline_items(&self, buffer_id: BufferId, cx: &App) -> (result: Task)
        ensures
            result@ == self@.outline_items(buffer_id, *cx),
    {
        let buffer = match self.buffer.buffer(buffer_id) {
            Some(buffer) => buffer,
            None => {
                let none: Vec<OutlineItem<text::Anchor>> = Vec::new();
                assert(items_view(none@) =~= Seq::empty());
                return Task::Ready(none);
            },
        };
        if Self::lsp_symbols_enabled(buffer, cx) {
            return match self.lsp_document_symbols.get(&buffer_id.raw) {
                Some(items) => Task::Ready(copy_items(items)),
                None => {
                    let none: Vec<OutlineItem<text::Anchor>> = Vec::new();
                    assert(items_view(none@) =~= Seq::empty());
                    Task::Ready(none)
                },
            };
        }
        Task::Background(OutlineRequest { snapshot: buffer.snapshot.id, syntax: cx.syntax_theme })
    }

    /// Tells whether the settings let the symbols of `buffer` come from a language server.
    pub fn lsp_symbols_enabled(buffer: &Buffer, cx: &App) -> (result: bool)
        ensures
            result == lsp_enabled_for(*buffer, *cx),
    {
        language_settings(&buffer.language, &buffer.file, cx).document_symbols.lsp_enabled()
    }

    /// Tells whether the buffer at `cursor` has its symbols from a language server.
    pub fn uses_lsp_document_symbols(
        &self,
        cursor: Anchor,
        multibuffer_snapshot: &MultiBufferSnapshot,
        cx: &App,
    ) -> (result: bool)
        ensures
            result == self@.uses_lsp(cursor, *multibuffer_snapshot, *cx),
    {
        let excerpt = match multibuffer_snapshot.excerpt_containing(cursor..cursor) {
            Some(excerpt) => excerpt,
            None => return false,
        };
        match self.buffer.buffer(excerpt.buffer_id) {
            Some(buffer) => Self::lsp_symbols_enabled(buffer, cx),
            None => false,
        }
    }

    /// Picks, among the symbols that the editor already has, the chain that encloses `cursor`,
    /// from the outside in. Never asks a language server for any.
    pub fn lsp_symbols_at_cursor(
        &self,
        cursor: Anchor,
        multibuffer_snapshot: &MultiBufferSnapshot,
    ) -> (result: Option<(BufferId, Vec<OutlineItem<Anchor>>)>)
        ensures
            symbols_at_view(result) == self@.symbols_at(cursor, *multibuffer_snapshot),
            result matches Some((_, symbols)) ==> forall|i: int, j: int|
                0 <= i < j < symbols@.len() ==> (#[trigger] symbols@[i]).depth < (
                #[trigger] symbols@[j]).depth,
    {
        let excerpt = multibuffer_snapshot.excerpt_containing(cursor..cursor)?;
        let buffer = self.buffer.buffer(excerpt.buffer_id)?;
        let all_items = self.lsp_document_symbols.get(&excerpt.buffer_id.raw)?;
        if all_items.len() == 0 {
            return None;
        }
        let symbols = items_at_cursor(
            all_items,
            cursor.text_anchor,
            &buffer.snapshot,
            excerpt.id,
        );
        Some((excerpt.buffer_id, symbols))
    }

    /// Lists the buffers that a refresh asks about, each once.
    fn buffers_to_query(&self, for_buffer: Option<BufferId>, cx: &App) -> (result: Vec<
        BufferHandle,
    >)
        ensures
            result@ == self@.to_query(for_buffer, *cx),
    {
        let ghost queried = is_queried(for_buffer, *cx);
        let ghost all = self.buffer.buffers@;
        let mut selected: Vec<BufferHandle> = Vec::new();
        let mut i: usize = 0;
        proof {
            reveal(Seq::filter);
            assert(selected@ =~= handles(all.take(0).filter(queried)));
        }
        while i < self.buffer.buffers.len()
            invariant
                i <= self.buffer.buffers.len(),
                all == self.buffer.buffers@,
                queried == is_queried(for_buffer, *cx),
                selected@ == handles(all.take(i as int).filter(queried)),
            decreases self.buffer.buffers.len() - i,
        {
            let buffer = &self.buffer.buffers[i];
            proof {
                reveal(Seq::filter);
                assert(all.take(i + 1).drop_last() =~= all.take(i as int));
                assert(all.take(i + 1).last() == *buffer);
            }
            let is_target = match for_buffer {
                Some(target) => target == buffer.handle.remote_id,
                None => true,
            };
            if is_target && Self::lsp_symbols_enabled(buffer, cx) {
                selected.push(buffer.handle);
                assert(selected@ =~= handles(all.take(i + 1).filter(queried)));
            }
            i += 1;
        }
        assert(all.take(all.len() as int) =~= all);
        unique_by_remote_id(selected)
    }

    /// Starts to fetch document symbols for `for_buffer`, or for all buffers, where the
    /// settings let them come from a language server. An earlier refresh that is still under
    /// way is given up for the new one.
    ///
    /// Returns what the host is to do, where there is anything to fetch. What the host then
    /// reports goes to `advance_refresh`.
    pub fn refresh_document_symbols(
        &mut self,
        for_buffer: Option<BufferId>,
        cx: &App,
    ) -> (result: Option<RefreshAction>)
        ensures
            (final(self)@, action_view(result)) == old(self)@.refreshed(for_buffer, *cx),
    {
        if !self.mode.is_full() {
            return None;
        }
        let project = self.project?;
        let buffers = self.buffers_to_query(for_buffer, cx);
        if buffers.len() == 0 {
            return None;
        }
        let id = self.latest_refresh.next();
        self.latest_refresh = id;
        self.refresh_document_symbols_task = RefreshTask::Debouncing { id, project, buffers };
        Some(RefreshAction::Debounce { id })
    }

    /// Takes the refresh that is under way one step further, and returns what the host is to
    /// do next. An event that the refresh does not wait for, or that is of a refresh given up
    /// since, changes nothing.
    pub fn advance_refresh(&mut self, event: RefreshEvent) -> (result: Option<RefreshAction>)
        ensures
            (final(self)@, action_view(result)) == old(self)@.advanced(event@),
    {
        let mut task = RefreshTask::Ready;
        std::mem::swap(&mut task, &mut self.refresh_document_symbols_task);
        match (task, event) {
            (_, RefreshEvent::EditorReleased) => None,
            (
                RefreshTask::Debouncing { id, project, buffers },
                RefreshEvent::DebounceElapsed { id: reported },
            ) if reported == id => {
                let queried = buffers.clone();
                assert(queried@ =~= buffers@);
                self.refresh_document_symbols_task = RefreshTask::Fetching { id, buffers };
                Some(RefreshAction::FetchDocumentSymbols { id, project, buffers: queried })
            },
            (
                RefreshTask::Fetching { id, buffers },
                RefreshEvent::SymbolsFetched { id: reported, replies },
            ) if reported == id => {
                self.store_document_symbols(&buffers, replies);
                Some(RefreshAction::RefreshOutlineSymbolsAtCursor)
            },
            (task, _) => {
                self.refresh_document_symbols_task = task;
                None
            },
        }
    }

    /// Stores each reply under the buffer at the same place.
    fn store_document_symbols(
        &mut self,
        buffers: &Vec<BufferHandle>,
        replies: Vec<Vec<OutlineItem<text::Anchor>>>,
    )
        ensures
            final(self)@ == (EditorView {
                symbols: with_replies(
                    old(self)@.symbols,
                    buffers@,
                    replies_view(replies@),
                    answered(buffers@, replies_view(replies@)),
                ),
                ..old(self)@
            }),
    {
        let ghost reported = replies_view(replies@);
        let ghost before = self@;
        let mut replies = replies;
        let mut i: usize = 0;
        while i < buffers.len() && i < replies.len()
            invariant
                i <= buffers.len(),
                i <= replies.len(),
                replies.len() == reported.len(),
                forall|j: int|
                    i <= j < replies.len() ==> items_view((#[trigger] replies@[j])@)
                        == reported[j],
                self@ == (EditorView {
                    symbols: with_replies(before.symbols, buffers@, reported, i as int),
                    ..before
                }),
            decreases buffers.len() - i,
        {
            let mut items: Vec<OutlineItem<text::Anchor>> = Vec::new();
            std::mem::swap(&mut items, &mut replies[i]);
            let ghost symbols = self.lsp_document_symbols@;
            self.lsp_document_symbols.insert(buffers[i].remote_id.raw, items);
            assert(symbols_view(self.lsp_document_symbols@) =~= symbols_view(symbols).insert(
                buffers@[i as int].remote_id.raw,
                reported[i as int],
            ));
            i += 1;
        }
    }
}

} // verus!
