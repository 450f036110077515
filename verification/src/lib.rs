//! The text-buffer and navigation engine of a terminal text editor.
//!
//! A [`Document`] is an ordered sequence of [`Row`]s, each a line of
//! characters with its drawn form and its highlight spans. Characters are
//! inserted and deleted at a [`Position`]; a literal text is searched
//! forward or backward, going round the ends of the buffer; the rows are
//! highlighted by the rules of the file type. The [`viewport`] module moves
//! the cursor within the shape of the buffer and lets the scroll offset
//! follow it. An [`Editor`] holds all of this together and says what each
//! key press does; reading keys, drawing and file access are left to the
//! event loop that drives it.
//!
//! Every function is verified against its contract. The contracts speak of
//! the views of the types: sequences of characters, rows and spans.

pub mod document;
pub mod editor;
pub mod error;
pub mod filetype;
pub mod highlight;
pub mod keys;
pub mod position;
pub mod prompt;
pub mod row;
pub mod screen;
pub mod search;
pub mod status;
pub mod text;
pub mod viewport;

pub use document::Document;
pub use editor::{Editor, Request};
pub use error::{CopyError, EditorError};
pub use filetype::FileType;
pub use highlight::{Category, LexState, Span, SyntaxRules};
pub use keys::{Command, Key, KeyPress, Modifiers};
pub use position::{Position, SearchDirection};
pub use prompt::{Prompt, PromptMode, PromptStep};
pub use row::Row;
pub use status::StatusMessage;
pub use viewport::{Movement, Size};
