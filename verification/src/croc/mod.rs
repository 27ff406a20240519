//! Builders for the `croc` command line.
pub mod clipboard_kind;
pub mod code;
pub mod command;
pub mod croc;
pub mod encryption_curve;
pub mod receive;
pub mod relay;
pub mod send;

pub use clipboard_kind::ClipboardKind;
pub use code::Code;
pub use command::{CrocCommand, Platform, StdioMode};
pub use croc::Croc;
pub use encryption_curve::EncryptionCurve;
pub use receive::CrocReceive;
pub use relay::{IpAddress, Relay};
pub use send::{CrocSend, HashKind};
