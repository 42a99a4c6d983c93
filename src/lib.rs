//! Session state and compiler bridge of a language server for the Nu shell
//! language: the open documents and their position conversions, the settings
//! and the client's capabilities, the validation throttle, the arguments of
//! each compiler invocation and the reading of its answers.

pub mod capabilities;
pub mod compiler;
pub mod document;
pub mod error;
pub mod nu;
pub mod position;
pub mod settings;
pub mod text;
pub mod throttle;

pub use capabilities::CapabilityFlags;
pub use compiler::{compiler_args, decode_output, CompilerResponse, IdeOperation};
pub use document::{ContentChange, DocumentStore, TextDocument};
pub use error::{ErrorKind, LspError};
pub use nu::{
    output_lines, CompletionItem, CompletionItemKind, Diagnostic, DiagnosticSeverity, Hover,
    IdeCheck, IdeCheckDiagnostic, IdeCheckHint, IdeCheckResponse, IdeComplete,
    IdeDiagnosticSeverity, IdeGotoDef, IdeHover, IdeSpan, InlayHint, InlayHintKind, Location,
};
pub use position::{convert_position, find_line_breaks, line_break_index, Position, Range};
pub use settings::{FetchedSettings, IdeSettings, IdeSettingsHints, SettingsLookup, SettingsStore};
pub use throttle::Throttle;
