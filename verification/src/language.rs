//! Buffers with a language, and the settings that hold for them.

use vstd::prelude::*;

use crate::lookup::{first_where, lemma_first_where_absent, lemma_first_where_found};
use crate::text::{BufferId, BufferSnapshot};

verus! {

/// The name of a programming language.
#[derive(Debug)]
pub struct LanguageName {
    pub name: String,
}

impl View for LanguageName {
    type V = Seq<char>;

    open spec fn view(&self) -> Seq<char> {
        self.name@
    }
}

/// A file: its place in one of the project's worktrees.
#[derive(Debug)]
pub struct File {
    pub worktree_id: u64,
    pub path: String,
}

impl View for File {
    type V = (u64, Seq<char>);

    open spec fn view(&self) -> (u64, Seq<char>) {
        (self.worktree_id, self.path@)
    }
}

/// An open buffer, as others refer to it: the entity, and the identity of its contents.
#[derive(Clone, Copy, Debug, PartialEq, Eq, Structural)]
pub struct BufferHandle {
    pub entity_id: u64,
    pub remote_id: BufferId,
}

/// An open buffer: its language and file, where it has them, and its text.
#[derive(Debug)]
pub struct Buffer {
    pub handle: BufferHandle,
    pub language: Option<LanguageName>,
    pub file: Option<File>,
    pub snapshot: BufferSnapshot,
}

/// The condition that a buffer has the identity `id`.
pub open spec fn has_remote_id(id: BufferId) -> spec_fn(Buffer) -> bool {
    |buffer: Buffer| buffer.handle.remote_id == id
}

/// Where the symbols of a document come from.
#[derive(Clone, Copy, Debug, PartialEq, Eq, Structural)]
pub enum DocumentSymbols {
    /// From the syntax tree of the buffer.
    Off,
    /// From the language server.
    On,
}

impl Default for DocumentSymbols {
    /// Symbols come from the syntax tree unless a setting says otherwise.
    fn default() -> (result: Self)
        ensures
            result == DocumentSymbols::Off,
    {
        DocumentSymbols::Off
    }
}

impl DocumentSymbols {
    /// Tells whether symbols come from the language server.
    pub fn lsp_enabled(&self) -> (result: bool)
        ensures
            result == (*self == DocumentSymbols::On),
    {
        match self {
            DocumentSymbols::On => true,
            DocumentSymbols::Off => false,
        }
    }
}

/// The settings that hold for a buffer.
#[derive(Clone, Copy, Debug, PartialEq, Eq, Structural)]
pub struct LanguageSettings {
    pub document_symbols: DocumentSymbols,
}

/// A theme for syntax highlighting.
#[derive(Clone, Copy, Debug, PartialEq, Eq, Structural)]
pub struct SyntaxTheme {
    pub id: u64,
}

/// The settings that hold for one language in one file.
#[derive(Debug)]
pub struct SettingsEntry {
    pub language: Option<LanguageName>,
    pub file: Option<File>,
    pub settings: LanguageSettings,
}

/// What holds for the whole application: the theme, and the settings in force.
///
/// `settings` lists the language and file pairs for which settings have been worked out.
/// For a pair that is not listed the defaults hold.
#[derive(Debug)]
pub struct App {
    pub defaults: LanguageSettings,
    pub settings: Vec<SettingsEntry>,
    pub syntax_theme: SyntaxTheme,
}

/// The contents of an optional language name.
pub open spec fn language_view(language: Option<LanguageName>) -> Option<Seq<char>> {
    match language {
        Some(name) => Some(name@),
        None => None,
    }
}

/// The contents of an optional file.
pub open spec fn file_view(file: Option<File>) -> Option<(u64, Seq<char>)> {
    match file {
        Some(file) => Some(file@),
        None => None,
    }
}

/// The condition that an entry is about the given language and file.
pub open spec fn is_about(language: Option<Seq<char>>, file: Option<(u64, Seq<char>)>) -> spec_fn(
    SettingsEntry,
) -> bool {
    |entry: SettingsEntry|
        language_view(entry.language) == language && file_view(entry.file) == file
}

impl App {
    /// The settings that hold for a language and a file.
    pub open spec fn settings_for(
        self,
        language: Option<Seq<char>>,
        file: Option<(u64, Seq<char>)>,
    ) -> LanguageSettings {
        match first_where(self.settings@, is_about(language, file)) {
            Some(entry) => entry.settings,
            None => self.defaults,
        }
    }
}

/// Tells whether two optional language names agree.
fn same_language(a: &Option<LanguageName>, b: &Option<LanguageName>) -> (result: bool)
    ensures
        result == (language_view(*a) == language_view(*b)),
{
    match (a, b) {
        (Some(a), Some(b)) => a.name == b.name,
        (None, None) => true,
        _ => false,
    }
}

/// Tells whether two optional files agree.
fn same_file(a: &Option<File>, b: &Option<File>) -> (result: bool)
    ensures
        result == (file_view(*a) == file_view(*b)),
{
    match (a, b) {
        (Some(a), Some(b)) => a.worktree_id == b.worktree_id && a.path == b.path,
        (None, None) => true,
        _ => false,
    }
}

/// Looks up the settings that hold for a language and a file.
pub fn language_settings(
    language: &Option<LanguageName>,
    file: &Option<File>,
    cx: &App,
) -> (result: LanguageSettings)
    ensures
        result == cx.settings_for(language_view(*language), file_view(*file)),
{
    let ghost wanted = is_about(language_view(*language), file_view(*file));
    let mut i: usize = 0;
    while i < cx.settings.len()
        invariant
            i <= cx.settings.len(),
            wanted == is_about(language_view(*language), file_view(*file)),
            forall|j: int| 0 <= j < i ==> !wanted(#[trigger] cx.settings@[j]),
        decreases cx.settings.len() - i,
    {
        let entry = &cx.settings[i];
        if same_language(&entry.language, language) && same_file(&entry.file, file) {
            proof {
                lemma_first_where_found(cx.settings@, wanted, i as int);
            }
            return entry.settings;
        }
        i += 1;
    }
    proof {
        lemma_first_where_absent(cx.settings@, wanted);
    }
    cx.defaults
}

} // verus!
