//! An editor with one Rust buffer, and a host that answers what the editor asks for.

use std::collections::HashMap;

use document_symbols::editor::{Editor, EditorMode, OutlineRequest, Task};
use document_symbols::language::{
    App, Buffer, BufferHandle, DocumentSymbols, File, LanguageName, LanguageSettings, SyntaxTheme,
};
use document_symbols::multi_buffer::{
    Anchor, Excerpt, ExcerptId, LocatedRange, MultiBuffer, MultiBufferSnapshot,
};
use document_symbols::outline::OutlineItem;
use document_symbols::refresh::{Project, RefreshAction, RefreshEvent, RefreshId, RefreshTask};
use document_symbols::text;
use document_symbols::text::{BufferId, BufferSnapshot, SnapshotId};

const BUFFER: BufferId = BufferId { raw: 7 };
const EXCERPT: ExcerptId = ExcerptId { raw: 3 };
const THEME: SyntaxTheme = SyntaxTheme { id: 11 };
const SNAPSHOT: SnapshotId = SnapshotId { raw: 21 };

fn at(row: u64, column: u64) -> text::Anchor {
    text::Anchor { handle: row * 100 + column }
}

fn symbol(
    name: &str,
    depth: usize,
    range: (u64, u64, u64, u64),
    selection: (u64, u64, u64, u64),
) -> OutlineItem<text::Anchor> {
    OutlineItem {
        depth,
        range: at(range.0, range.1)..at(range.2, range.3),
        source_range_for_text: at(selection.0, selection.1)..at(selection.2, selection.3),
        text: name.to_string(),
        highlight_ranges: Vec::new(),
        name_ranges: vec![0..name.len()],
        body_range: None,
        annotation_range: None,
    }
}

fn settings(document_symbols: DocumentSymbols) -> LanguageSettings {
    LanguageSettings { document_symbols }
}

/// The host of one editor, with a language server that answers every request alike.
struct Host {
    editor: Editor,
    app: App,
    cursor: text::Anchor,
    reply: Vec<OutlineItem<text::Anchor>>,
    tree_sitter: Vec<OutlineItem<text::Anchor>>,
    requests: usize,
    outline_symbols_at_cursor: Option<Vec<String>>,
}

impl Host {
    fn new(
        document_symbols: DocumentSymbols,
        cursor: (u64, u64),
        reply: Vec<OutlineItem<text::Anchor>>,
        tree_sitter: &str,
    ) -> Host {
        // Every place of a small document, in its order.
        let mut positions = HashMap::new();
        for row in 0..10 {
            for column in 0..40 {
                positions.insert(row * 100 + column, row * 1000 + column);
            }
        }
        let buffer = Buffer {
            handle: BufferHandle { entity_id: 1, remote_id: BUFFER },
            language: Some(LanguageName { name: "Rust".to_string() }),
            file: Some(File { worktree_id: 1, path: "/a/main.rs".to_string() }),
            snapshot: BufferSnapshot { id: SNAPSHOT, positions },
        };
        Host {
            editor: Editor {
                mode: EditorMode::Full,
                project: Some(Project { id: 5 }),
                buffer: MultiBuffer { buffers: vec![buffer] },
                lsp_document_symbols: HashMap::new(),
                refresh_document_symbols_task: RefreshTask::Ready,
                latest_refresh: RefreshId { raw: 0 },
            },
            app: App {
                defaults: settings(document_symbols),
                settings: Vec::new(),
                syntax_theme: THEME,
            },
            cursor: at(cursor.0, cursor.1),
            reply,
            tree_sitter: vec![symbol(tree_sitter, 0, (0, 0, 2, 1), (0, 0, 0, 7))],
            requests: 0,
            outline_symbols_at_cursor: None,
        }
    }

    fn multi_buffer_cursor(&self) -> Anchor {
        Anchor { excerpt_id: EXCERPT, text_anchor: self.cursor }
    }

    fn multi_buffer_snapshot(&self) -> MultiBufferSnapshot {
        let cursor = self.multi_buffer_cursor();
        MultiBufferSnapshot {
            located: vec![LocatedRange {
                range: cursor..cursor,
                excerpt: Excerpt { id: EXCERPT, buffer_id: BUFFER },
            }],
        }
    }

    fn move_cursor(&mut self, row: u64, column: u64) {
        self.cursor = at(row, column);
        self.refresh_outline_symbols_at_cursor();
    }

    fn refresh_outline_symbols_at_cursor(&mut self) {
        let cursor = self.multi_buffer_cursor();
        let snapshot = self.multi_buffer_snapshot();
        self.outline_symbols_at_cursor =
            if self.editor.uses_lsp_document_symbols(cursor, &snapshot, &self.app) {
                self.editor.lsp_symbols_at_cursor(cursor, &snapshot).map(|(id, symbols)| {
                    assert_eq!(id, BUFFER);
                    symbols.iter().map(|symbol| symbol.text.clone()).collect()
                })
            } else {
                assert_eq!(
                    self.editor.buffer_outline_items(BUFFER, &self.app),
                    Task::Background(OutlineRequest { snapshot: SNAPSHOT, syntax: THEME })
                );
                Some(self.tree_sitter.iter().map(|symbol| symbol.text.clone()).collect())
            };
    }

    /// Starts a refresh and performs all that it asks for.
    fn run_until_parked(&mut self) {
        let mut action = self.editor.refresh_document_symbols(None, &self.app);
        while let Some(next) = action {
            action = match next {
                RefreshAction::Debounce { id } => {
                    self.editor.advance_refresh(RefreshEvent::DebounceElapsed { id })
                }
                RefreshAction::FetchDocumentSymbols { id, project, buffers } => {
                    assert_eq!(project, Project { id: 5 });
                    self.requests += buffers.len();
                    let replies = buffers.iter().map(|_| self.reply.clone()).collect();
                    self.editor.advance_refresh(RefreshEvent::SymbolsFetched { id, replies })
                }
                RefreshAction::RefreshOutlineSymbolsAtCursor => {
                    self.refresh_outline_symbols_at_cursor();
                    None
                }
            };
        }
    }

    fn names(&self) -> Vec<&str> {
        self.outline_symbols_at_cursor
            .as_ref()
            .expect("Should have outline symbols")
            .iter()
            .map(|name| name.as_str())
            .collect()
    }
}

fn main_symbol(name: &str) -> Vec<OutlineItem<text::Anchor>> {
    vec![symbol(name, 0, (0, 0, 2, 1), (0, 3, 0, 7))]
}

#[test]
fn test_lsp_document_symbols_fetches_when_enabled() {
    let mut host = Host::new(DocumentSymbols::On, (0, 5), main_symbol("main"), "fn main");
    host.run_until_parked();
    assert_eq!(host.requests, 1);
    assert_eq!(host.names(), vec!["main"]);
}

#[test]
fn test_lsp_document_symbols_nested() {
    let reply = vec![
        symbol("Foo", 0, (0, 0, 3, 1), (0, 7, 0, 10)),
        symbol("bar", 1, (1, 4, 1, 13), (1, 4, 1, 7)),
        symbol("baz", 1, (2, 4, 2, 15), (2, 4, 2, 7)),
    ];
    let mut host = Host::new(DocumentSymbols::On, (1, 6), reply, "struct Foo");
    host.run_until_parked();
    assert_eq!(host.requests, 1);
    // The cursor is inside Foo > bar, so that chain is expected.
    assert_eq!(host.names(), vec!["Foo", "bar"]);
}

#[test]
fn test_lsp_document_symbols_switch_tree_sitter_to_lsp_and_back() {
    let mut host =
        Host::new(DocumentSymbols::default(), (0, 5), main_symbol("lsp_main_symbol"), "fn main");
    host.run_until_parked();
    host.refresh_outline_symbols_at_cursor();
    assert_eq!(host.names(), vec!["fn main"], "Tree-sitter should produce 'fn main'");

    host.app.defaults = settings(DocumentSymbols::On);
    host.run_until_parked();
    host.move_cursor(1, 5);
    assert_eq!(host.requests, 1);
    assert_eq!(
        host.names(),
        vec!["lsp_main_symbol"],
        "After switching to LSP, should see LSP symbols"
    );

    host.app.defaults = settings(DocumentSymbols::Off);
    host.run_until_parked();
    host.move_cursor(0, 5);
    assert_eq!(
        host.names(),
        vec!["fn main"],
        "After switching back to tree-sitter, should see tree-sitter symbols again"
    );
}

#[test]
fn test_lsp_document_symbols_caches_results() {
    let mut host = Host::new(DocumentSymbols::On, (0, 5), main_symbol("main"), "fn main");
    host.run_until_parked();
    let first_count = host.requests;
    assert!(first_count > 0, "Should have made at least one request");

    host.move_cursor(1, 5);
    let second_count = host.requests;
    assert_eq!(
        first_count, second_count,
        "Moving cursor without editing should use cached symbols"
    );
    assert_eq!(host.names(), vec!["main"]);
}

#[test]
fn test_lsp_document_symbols_flat_response() {
    let reply = vec![symbol("main", 0, (0, 0, 2, 1), (0, 0, 2, 1))];
    let mut host = Host::new(DocumentSymbols::On, (0, 5), reply, "fn main");
    host.run_until_parked();
    assert_eq!(host.requests, 1);
    assert_eq!(host.names(), vec!["main"]);
}

#[test]
fn test_breadcrumbs_use_lsp_symbols() {
    let reply = vec![
        symbol("MyModule", 0, (0, 0, 4, 1), (0, 4, 0, 12)),
        symbol("my_function", 1, (1, 4, 3, 5), (1, 7, 1, 18)),
    ];
    let mut host = Host::new(DocumentSymbols::On, (1, 12), reply, "mod MyModule");
    host.run_until_parked();
    assert_eq!(host.requests, 1);
    assert_eq!(host.names(), vec!["MyModule", "my_function"]);
}

#[test]
fn test_lsp_document_symbols_empty_response() {
    let mut host = Host::new(DocumentSymbols::On, (0, 5), Vec::new(), "fn main");
    host.run_until_parked();
    assert_eq!(host.requests, 1);
    assert!(
        host.outline_symbols_at_cursor.is_none(),
        "Empty LSP response should result in no outline symbols"
    );
}

#[test]
fn test_lsp_document_symbols_disabled_by_default() {
    let mut host = Host::new(
        DocumentSymbols::default(),
        (0, 5),
        main_symbol("should_not_appear"),
        "fn main",
    );
    host.run_until_parked();
    host.refresh_outline_symbols_at_cursor();
    assert_eq!(
        host.names(),
        vec!["fn main"],
        "With document_symbols off, should use tree-sitter"
    );
    assert_eq!(
        host.requests, 0,
        "Should not have made any LSP document symbol requests when setting is off"
    );
}
