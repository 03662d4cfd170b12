//! mcsh: the command language of a Minecraft-flavoured shell.

pub mod text;
pub mod style;
pub mod commands;
pub mod builtins;
pub mod pipeline;
pub mod listing;
pub mod completer;
pub mod highlighter;
pub mod hinter;
pub mod prompt;
pub mod screens;
pub mod session;

pub use completer::McshCompleter;
pub use highlighter::McshHighlighter;
pub use hinter::{CommandHint, McshHinter};
pub use prompt::get_prompt;
