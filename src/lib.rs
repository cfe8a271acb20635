//! A small terminal text editor's core: a line buffer with a cursor and a
//! scroll offset, the edit and navigation operations on it, the plain-text
//! file format, and the decisions of the key-driven interaction loop.

pub mod editor;
pub mod input;
pub mod laws;
pub mod layout;
pub mod text;

pub use editor::{Direction, Editor};
pub use input::{blink, command_for, confirms_save, Command, Key, Prompt};
pub use layout::{centered_rect, Area};
pub use text::{parse_lines, render_text};
