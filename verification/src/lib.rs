//! Document symbols of an editor: which symbols a buffer's outline shows, which of them
//! enclose the cursor, and when symbols are fetched from a language server.

pub mod chain;
pub mod cursor_laws;
pub mod editor;
pub mod editor_laws;
pub mod language;
pub mod laws;
pub mod lookup;
pub mod multi_buffer;
pub mod outline;
pub mod refresh;
pub mod text;
pub mod view_laws;
