//! Whether `croc` copies the code to the system clipboard.
use vstd::prelude::*;

verus! {

/// Settings about the `croc` instance copying the code to the system clipboard.
#[derive(Debug, Clone, Copy, PartialEq, Eq, Structural)]
pub enum ClipboardKind {
    /// The code will not be copied automatically by `croc`.
    Disabled,
    /// The code will be copied automatically by `croc`.
    Enabled,
    /// The full `croc` command be copied automatically.
    Extended,
}

impl Default for ClipboardKind {
    fn default() -> (r: Self)
        ensures
            r == ClipboardKind::Enabled,
    {
        ClipboardKind::Enabled
    }
}

/// `true` enables copying the code, `false` disables it.
impl From<bool> for ClipboardKind {
    fn from(value: bool) -> (r: Self) {
        if value {
            ClipboardKind::Enabled
        } else {
            ClipboardKind::Disabled
        }
    }
}

impl vstd::std_specs::convert::FromSpecImpl<bool> for ClipboardKind {
    open spec fn obeys_from_spec() -> bool {
        true
    }

    open spec fn from_spec(value: bool) -> Self {
        if value {
            ClipboardKind::Enabled
        } else {
            ClipboardKind::Disabled
        }
    }
}

} // verus!
