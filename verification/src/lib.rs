//! A wrapper for the [Croc] file-transfer tool: builders that put together
//! the `croc` command line, and a parser that turns what `croc` reports on
//! its error output into events.
//!
//! [Croc]: https://github.com/schollz/croc
pub mod croc;
pub mod event;
pub mod measure;
pub mod number;
pub mod parser;
pub mod text;

pub use croc::{
    ClipboardKind, Code, Croc, CrocCommand, CrocReceive, CrocSend, EncryptionCurve, HashKind,
    IpAddress, Platform, Relay, StdioMode,
};
pub use event::{CrocEvent, FileInfo, Measure, Progress};
pub use parser::{CrocParser, LineOutcome, RelayRequest};
