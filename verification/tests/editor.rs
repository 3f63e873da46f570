//! The editor's operations one by one.

use std::collections::HashMap;

use document_symbols::editor::{Editor, EditorMode, OutlineRequest, Task};
use document_symbols::language::{
    App, Buffer, BufferHandle, DocumentSymbols, File, LanguageName, LanguageSettings,
    SettingsEntry, SyntaxTheme, language_settings,
};
use document_symbols::multi_buffer::{
    Anchor, Excerpt, ExcerptId, LocatedRange, MultiBuffer, MultiBufferSnapshot,
};
use document_symbols::outline::{HighlightStyle, OutlineItem, items_at_cursor};
use document_symbols::refresh::{Project, RefreshAction, RefreshEvent, RefreshId, RefreshTask};
use document_symbols::text;
use document_symbols::text::{BufferId, BufferSnapshot, SnapshotId};

const ON: LanguageSettings = LanguageSettings { document_symbols: DocumentSymbols::On };
const OFF: LanguageSettings = LanguageSettings { document_symbols: DocumentSymbols::Off };
const EXCERPT: ExcerptId = ExcerptId { raw: 9 };

fn id(raw: u64) -> BufferId {
    BufferId { raw }
}

fn handle(entity_id: u64, raw: u64) -> BufferHandle {
    BufferHandle { entity_id, remote_id: id(raw) }
}

fn anchor(handle: u64) -> text::Anchor {
    text::Anchor { handle }
}

fn item(name: &str, depth: usize, start: u64, end: u64) -> OutlineItem<text::Anchor> {
    OutlineItem {
        depth,
        range: anchor(start)..anchor(end),
        source_range_for_text: anchor(start)..anchor(end),
        text: name.to_string(),
        highlight_ranges: Vec::new(),
        name_ranges: Vec::new(),
        body_range: None,
        annotation_range: None,
    }
}

/// Anchors 0 to 99, each at ten times its handle.
fn snapshot(raw: u64) -> BufferSnapshot {
    BufferSnapshot {
        id: SnapshotId { raw },
        positions: (0..100).map(|handle| (handle, handle * 10)).collect(),
    }
}

fn buffer(entity_id: u64, raw: u64, language: Option<&str>, path: Option<&str>) -> Buffer {
    Buffer {
        handle: handle(entity_id, raw),
        language: language.map(|name| LanguageName { name: name.to_string() }),
        file: path.map(|path| File { worktree_id: 1, path: path.to_string() }),
        snapshot: snapshot(raw * 100 + entity_id),
    }
}

fn app(defaults: LanguageSettings, languages: Vec<(&str, LanguageSettings)>) -> App {
    App {
        defaults,
        settings: languages
            .into_iter()
            .map(|(name, settings)| SettingsEntry {
                language: Some(LanguageName { name: name.to_string() }),
                file: None,
                settings,
            })
            .collect(),
        syntax_theme: SyntaxTheme { id: 4 },
    }
}

fn editor(buffers: Vec<Buffer>) -> Editor {
    Editor {
        mode: EditorMode::Full,
        project: Some(Project { id: 2 }),
        buffer: MultiBuffer { buffers },
        lsp_document_symbols: HashMap::new(),
        refresh_document_symbols_task: RefreshTask::Ready,
        latest_refresh: RefreshId { raw: 0 },
    }
}

fn cursor(handle: u64) -> Anchor {
    Anchor { excerpt_id: EXCERPT, text_anchor: anchor(handle) }
}

fn located(handle: u64, raw: u64) -> MultiBufferSnapshot {
    MultiBufferSnapshot {
        located: vec![LocatedRange {
            range: cursor(handle)..cursor(handle),
            excerpt: Excerpt { id: EXCERPT, buffer_id: id(raw) },
        }],
    }
}

fn started(editor: &mut Editor, for_buffer: Option<BufferId>, cx: &App) -> RefreshId {
    match editor.refresh_document_symbols(for_buffer, cx) {
        Some(RefreshAction::Debounce { id }) => id,
        other => panic!("{:?}", other),
    }
}

fn queried(
    editor: &mut Editor,
    for_buffer: Option<BufferId>,
    cx: &App,
) -> (RefreshId, Vec<BufferHandle>) {
    let started = started(editor, for_buffer, cx);
    match editor.advance_refresh(RefreshEvent::DebounceElapsed { id: started }) {
        Some(RefreshAction::FetchDocumentSymbols { id, project, buffers }) => {
            assert_eq!(id, started);
            assert_eq!(project, Project { id: 2 });
            (id, buffers)
        }
        other => panic!("{:?}", other),
    }
}

fn names<T>(items: &[OutlineItem<T>]) -> Vec<&str> {
    items.iter().map(|item| item.text.as_str()).collect()
}

fn names_at(items: Vec<OutlineItem<text::Anchor>>, handle: u64) -> Vec<String> {
    items_at_cursor(&items, anchor(handle), &snapshot(1), EXCERPT)
        .iter()
        .map(|item| item.text.clone())
        .collect()
}

#[test]
fn settings_default_to_off() {
    assert_eq!(DocumentSymbols::default(), DocumentSymbols::Off);
    assert!(!DocumentSymbols::Off.lsp_enabled());
    assert!(DocumentSymbols::On.lsp_enabled());
}

#[test]
fn settings_go_by_language_and_file() {
    let rust = Some(LanguageName { name: "Rust".to_string() });
    let file = Some(File { worktree_id: 1, path: "src/a.rs".to_string() });
    let mut cx = app(OFF, vec![("Go", ON), ("Rust", ON)]);
    assert_eq!(language_settings(&rust, &None, &cx), ON);
    assert_eq!(language_settings(&rust, &file, &cx), OFF);
    assert_eq!(language_settings(&None, &None, &cx), OFF);
    cx.settings.push(SettingsEntry {
        language: Some(LanguageName { name: "Rust".to_string() }),
        file: Some(File { worktree_id: 1, path: "src/a.rs".to_string() }),
        settings: ON,
    });
    assert_eq!(language_settings(&rust, &file, &cx), ON);
    let elsewhere = Some(File { worktree_id: 2, path: "src/a.rs".to_string() });
    assert_eq!(language_settings(&rust, &elsewhere, &cx), OFF);
}

#[test]
fn outline_of_unknown_buffer_is_empty() {
    let editor = editor(vec![buffer(1, 1, None, None)]);
    assert_eq!(editor.buffer_outline_items(id(2), &app(ON, vec![])), Task::Ready(vec![]));
    assert_eq!(editor.buffer_outline_items(id(2), &app(OFF, vec![])), Task::Ready(vec![]));
}

#[test]
fn outline_goes_by_the_setting() {
    let mut editor = editor(vec![buffer(1, 1, None, None), buffer(2, 2, None, None)]);
    editor.lsp_document_symbols.insert(1, vec![item("f", 0, 1, 5)]);
    let on = app(ON, vec![]);
    let off = app(OFF, vec![]);
    assert_eq!(editor.buffer_outline_items(id(1), &on), Task::Ready(vec![item("f", 0, 1, 5)]));
    assert_eq!(editor.buffer_outline_items(id(2), &on), Task::Ready(vec![]));
    assert_eq!(
        editor.buffer_outline_items(id(1), &off),
        Task::Background(OutlineRequest {
            snapshot: SnapshotId { raw: 101 },
            syntax: SyntaxTheme { id: 4 },
        })
    );
}

#[test]
fn cursor_outside_any_shown_buffer_has_no_symbols() {
    let mut editor = editor(vec![buffer(1, 1, None, None)]);
    editor.lsp_document_symbols.insert(1, vec![item("f", 0, 1, 5)]);
    editor.lsp_document_symbols.insert(2, vec![item("g", 0, 1, 5)]);
    let cx = app(ON, vec![]);
    let nowhere = MultiBufferSnapshot { located: Vec::new() };
    assert_eq!(editor.lsp_symbols_at_cursor(cursor(3), &nowhere), None);
    assert!(!editor.uses_lsp_document_symbols(cursor(3), &nowhere, &cx));
    assert_eq!(editor.lsp_symbols_at_cursor(cursor(3), &located(3, 2)), None);
    assert!(!editor.uses_lsp_document_symbols(cursor(3), &located(3, 2), &cx));
    assert!(editor.uses_lsp_document_symbols(cursor(3), &located(3, 1), &cx));
    assert!(!editor.uses_lsp_document_symbols(cursor(3), &located(3, 1), &app(OFF, vec![])));
    assert_eq!(names(&editor.lsp_symbols_at_cursor(cursor(3), &located(3, 1)).unwrap().1), ["f"]);
}

#[test]
fn unknown_and_empty_symbols_differ_from_none_at_the_cursor() {
    let mut editor = editor(vec![buffer(1, 1, None, None)]);
    assert_eq!(editor.lsp_symbols_at_cursor(cursor(3), &located(3, 1)), None);
    editor.lsp_document_symbols.insert(1, vec![]);
    assert_eq!(editor.lsp_symbols_at_cursor(cursor(3), &located(3, 1)), None);
    editor.lsp_document_symbols.insert(1, vec![item("f", 0, 5, 8)]);
    assert_eq!(editor.lsp_symbols_at_cursor(cursor(3), &located(3, 1)), Some((id(1), vec![])));
}

#[test]
fn both_ends_of_a_symbol_count() {
    let items = vec![item("f", 0, 5, 8)];
    assert!(names_at(items.clone(), 4).is_empty());
    assert_eq!(names_at(items.clone(), 5), ["f"]);
    assert_eq!(names_at(items.clone(), 8), ["f"]);
    assert!(names_at(items, 9).is_empty());
}

#[test]
fn symbols_with_unplaced_anchors_are_not_shown() {
    assert!(names_at(vec![item("f", 0, 5, 200)], 6).is_empty());
    assert!(names_at(vec![item("f", 0, 200, 8)], 6).is_empty());
    assert!(names_at(vec![item("f", 0, 5, 8)], 200).is_empty());
}

#[test]
fn symbols_at_the_cursor_are_the_ancestor_chain() {
    let items = vec![
        item("a", 0, 0, 20),
        item("a1", 1, 2, 8),
        item("a2", 1, 10, 18),
        item("a21", 2, 11, 13),
        item("a22", 2, 14, 17),
        item("b", 0, 30, 40),
    ];
    assert_eq!(names_at(items.clone(), 15), ["a", "a2", "a22"]);
    assert_eq!(names_at(items.clone(), 5), ["a", "a1"]);
    assert_eq!(names_at(items.clone(), 9), ["a"]);
    assert_eq!(names_at(items.clone(), 35), ["b"]);
    assert!(names_at(items, 25).is_empty());
}

#[test]
fn neighbours_that_touch_at_the_cursor() {
    let a = || item("a", 0, 0, 5);
    let a1 = || item("a1", 1, 1, 5);
    let b = || item("b", 0, 5, 9);
    let b1 = || item("b1", 1, 5, 8);
    let b11 = || item("b11", 2, 5, 7);
    // The chain is that of the first neighbour. The second is left out with all it holds.
    assert_eq!(names_at(vec![a(), b()], 5), ["a"]);
    assert_eq!(names_at(vec![a(), b(), b1()], 5), ["a"]);
    assert_eq!(names_at(vec![a(), a1(), b(), b1()], 5), ["a", "a1"]);
    assert_eq!(names_at(vec![a(), a1(), b(), b1(), b11()], 5), ["a", "a1"]);
    assert_eq!(names_at(vec![a(), a1(), b(), b1(), b11()], 6), ["b", "b1", "b11"]);
}

#[test]
fn depths_of_symbols_at_the_cursor_grow() {
    let mut editor = editor(vec![buffer(1, 1, None, None)]);
    editor.lsp_document_symbols.insert(
        1,
        vec![item("a", 0, 0, 5), item("a1", 1, 1, 5), item("b", 0, 5, 9), item("b1", 1, 5, 8)],
    );
    let (_, symbols) = editor.lsp_symbols_at_cursor(cursor(5), &located(5, 1)).unwrap();
    let depths: Vec<usize> = symbols.iter().map(|symbol| symbol.depth).collect();
    assert_eq!(depths, [0, 1]);
}

#[test]
fn symbols_at_the_cursor_are_moved_into_the_excerpt() {
    let source = OutlineItem {
        depth: 3,
        range: anchor(1)..anchor(9),
        source_range_for_text: anchor(2)..anchor(4),
        text: "fn f".to_string(),
        highlight_ranges: vec![(0..2, HighlightStyle { id: 6 })],
        name_ranges: vec![3..4],
        body_range: Some(anchor(5)..anchor(8)),
        annotation_range: Some(anchor(1)..anchor(2)),
    };
    let moved = OutlineItem {
        depth: 3,
        range: cursor(1)..cursor(9),
        source_range_for_text: cursor(2)..cursor(4),
        text: "fn f".to_string(),
        highlight_ranges: vec![(0..2, HighlightStyle { id: 6 })],
        name_ranges: vec![3..4],
        body_range: Some(cursor(5)..cursor(8)),
        annotation_range: Some(cursor(1)..cursor(2)),
    };
    assert_eq!(source.clone(), source);
    let mut editor = editor(vec![buffer(1, 1, None, None)]);
    editor.lsp_document_symbols.insert(1, vec![source]);
    assert_eq!(
        editor.lsp_symbols_at_cursor(cursor(3), &located(3, 1)),
        Some((id(1), vec![moved]))
    );
}

#[test]
fn refresh_needs_a_full_editor_with_a_project() {
    let cx = app(ON, vec![]);
    for mode in [EditorMode::SingleLine, EditorMode::AutoHeight, EditorMode::Minimap] {
        let mut editor = editor(vec![buffer(1, 1, None, None)]);
        editor.mode = mode;
        assert_eq!(editor.refresh_document_symbols(None, &cx), None);
        assert!(matches!(editor.refresh_document_symbols_task, RefreshTask::Ready));
    }
    let mut editor = editor(vec![buffer(1, 1, None, None)]);
    editor.project = None;
    assert_eq!(editor.refresh_document_symbols(None, &cx), None);
    assert!(matches!(editor.refresh_document_symbols_task, RefreshTask::Ready));
}

#[test]
fn refresh_asks_about_each_enabled_buffer_once() {
    let cx = app(OFF, vec![("Rust", ON)]);
    let mut editor = editor(vec![
        buffer(1, 10, Some("Go"), None),
        buffer(2, 20, Some("Rust"), None),
        buffer(3, 30, Some("Rust"), None),
        buffer(4, 20, Some("Rust"), None),
        buffer(5, 30, Some("Rust"), None),
        buffer(6, 10, Some("Rust"), None),
    ]);
    assert_eq!(
        queried(&mut editor, None, &cx).1,
        vec![handle(2, 20), handle(3, 30), handle(6, 10)]
    );
    assert_eq!(queried(&mut editor, Some(id(30)), &cx).1, vec![handle(3, 30)]);
    assert_eq!(editor.refresh_document_symbols(Some(id(40)), &cx), None);
}

#[test]
fn replies_replace_only_what_was_asked_about() {
    let cx = app(ON, vec![]);
    let mut editor =
        editor(vec![buffer(1, 1, None, None), buffer(2, 2, None, None), buffer(3, 3, None, None)]);
    editor.lsp_document_symbols.insert(1, vec![item("old1", 0, 1, 5)]);
    editor.lsp_document_symbols.insert(4, vec![item("old4", 0, 1, 5)]);
    let (id, buffers) = queried(&mut editor, None, &cx);
    assert_eq!(buffers.len(), 3);
    let replies = vec![vec![item("new1", 0, 1, 5)], vec![], vec![item("new3", 0, 1, 5)]];
    assert_eq!(
        editor.advance_refresh(RefreshEvent::SymbolsFetched { id, replies }),
        Some(RefreshAction::RefreshOutlineSymbolsAtCursor)
    );
    assert_eq!(names(&editor.lsp_document_symbols[&1]), ["new1"]);
    assert!(editor.lsp_document_symbols[&2].is_empty());
    assert_eq!(names(&editor.lsp_document_symbols[&3]), ["new3"]);
    assert_eq!(names(&editor.lsp_document_symbols[&4]), ["old4"]);
    assert!(!editor.lsp_document_symbols.contains_key(&5));
    assert!(matches!(editor.refresh_document_symbols_task, RefreshTask::Ready));
}

#[test]
fn missing_replies_leave_symbols_as_they_are() {
    let cx = app(ON, vec![]);
    let mut editor = editor(vec![buffer(1, 1, None, None), buffer(2, 2, None, None)]);
    editor.lsp_document_symbols.insert(2, vec![item("old2", 0, 1, 5)]);
    let (id, buffers) = queried(&mut editor, None, &cx);
    assert_eq!(buffers.len(), 2);
    let replies = vec![vec![item("new1", 0, 1, 5)]];
    editor.advance_refresh(RefreshEvent::SymbolsFetched { id, replies });
    assert_eq!(names(&editor.lsp_document_symbols[&1]), ["new1"]);
    assert_eq!(names(&editor.lsp_document_symbols[&2]), ["old2"]);
}

#[test]
fn a_new_refresh_takes_the_place_of_the_old() {
    let cx = app(ON, vec![]);
    let mut editor = editor(vec![buffer(1, 1, None, None), buffer(2, 2, None, None)]);
    let (first, buffers) = queried(&mut editor, Some(id(1)), &cx);
    assert_eq!(buffers, vec![handle(1, 1)]);
    let (second, buffers) = queried(&mut editor, Some(id(2)), &cx);
    assert_eq!(buffers, vec![handle(2, 2)]);
    assert_ne!(first, second);

    // The answer to the first comes in while the second waits for its own.
    let replies = vec![vec![item("new1", 0, 1, 5)]];
    assert_eq!(editor.advance_refresh(RefreshEvent::SymbolsFetched { id: first, replies }), None);
    assert!(editor.lsp_document_symbols.is_empty());

    let replies = vec![vec![item("new2", 0, 1, 5)]];
    assert_eq!(
        editor.advance_refresh(RefreshEvent::SymbolsFetched { id: second, replies }),
        Some(RefreshAction::RefreshOutlineSymbolsAtCursor)
    );
    assert!(!editor.lsp_document_symbols.contains_key(&1));
    assert_eq!(names(&editor.lsp_document_symbols[&2]), ["new2"]);
}

#[test]
fn a_burst_of_refreshes_fetches_once() {
    let cx = app(ON, vec![]);
    let mut editor = editor(vec![buffer(1, 1, None, None), buffer(2, 2, None, None)]);
    let first = started(&mut editor, Some(id(1)), &cx);
    let second = started(&mut editor, None, &cx);
    let third = started(&mut editor, Some(id(2)), &cx);
    assert_eq!(editor.advance_refresh(RefreshEvent::DebounceElapsed { id: first }), None);
    assert_eq!(editor.advance_refresh(RefreshEvent::DebounceElapsed { id: second }), None);
    assert_eq!(
        editor.advance_refresh(RefreshEvent::DebounceElapsed { id: third }),
        Some(RefreshAction::FetchDocumentSymbols {
            id: third,
            project: Project { id: 2 },
            buffers: vec![handle(2, 2)],
        })
    );
    assert_eq!(editor.advance_refresh(RefreshEvent::DebounceElapsed { id: third }), None);
}

#[test]
fn refresh_numbers_start_over_after_the_largest() {
    assert_eq!(RefreshId { raw: 0 }.next(), RefreshId { raw: 1 });
    assert_eq!(RefreshId { raw: u64::MAX }.next(), RefreshId { raw: 0 });
    let cx = app(ON, vec![]);
    let mut editor = editor(vec![buffer(1, 1, None, None)]);
    editor.latest_refresh = RefreshId { raw: u64::MAX };
    assert_eq!(started(&mut editor, None, &cx), RefreshId { raw: 0 });
    assert_eq!(started(&mut editor, None, &cx), RefreshId { raw: 1 });
    assert_eq!(editor.latest_refresh, RefreshId { raw: 1 });
}

#[test]
fn a_refresh_with_nothing_to_ask_leaves_the_old_under_way() {
    let cx = app(ON, vec![]);
    let mut editor = editor(vec![buffer(1, 1, None, None)]);
    let first = started(&mut editor, None, &cx);
    assert_eq!(editor.refresh_document_symbols(Some(id(2)), &cx), None);
    assert_eq!(
        editor.advance_refresh(RefreshEvent::DebounceElapsed { id: first }),
        Some(RefreshAction::FetchDocumentSymbols {
            id: first,
            project: Project { id: 2 },
            buffers: vec![handle(1, 1)],
        })
    );
}

#[test]
fn events_that_nothing_waits_for_change_nothing() {
    let cx = app(ON, vec![]);
    let mut editor = editor(vec![buffer(1, 1, None, None)]);
    let none = RefreshId { raw: 0 };
    assert_eq!(editor.advance_refresh(RefreshEvent::DebounceElapsed { id: none }), None);
    let id = started(&mut editor, None, &cx);
    let replies = vec![vec![item("early", 0, 1, 5)]];
    assert_eq!(editor.advance_refresh(RefreshEvent::SymbolsFetched { id, replies }), None);
    assert!(editor.lsp_document_symbols.is_empty());
    assert!(matches!(
        editor.refresh_document_symbols_task,
        RefreshTask::Debouncing { .. }
    ));
}

#[test]
fn a_released_editor_stores_nothing() {
    let cx = app(ON, vec![]);
    let mut editor = editor(vec![buffer(1, 1, None, None)]);
    let (id, buffers) = queried(&mut editor, None, &cx);
    assert_eq!(buffers.len(), 1);
    assert_eq!(editor.advance_refresh(RefreshEvent::EditorReleased), None);
    let replies = vec![vec![item("late", 0, 1, 5)]];
    assert_eq!(editor.advance_refresh(RefreshEvent::SymbolsFetched { id, replies }), None);
    assert!(editor.lsp_document_symbols.is_empty());
}
