//! The code phrase that pairs a sender with a receiver.
use vstd::prelude::*;

verus! {

/// An enum representing different `croc` code generation strategies.
#[derive(Debug, Clone, PartialEq, Eq)]
pub enum Code {
    /// The code will be generated automatically by `croc`.
    Generated,
    /// Custom code that `croc` will use.
    Custom(String),
}

/// The code as the contracts see it.
pub enum CodeView {
    Generated,
    Custom(Seq<char>),
}

impl View for Code {
    type V = CodeView;

    open spec fn view(&self) -> CodeView {
        match self {
            Code::Generated => CodeView::Generated,
            Code::Custom(s) => CodeView::Custom(s@),
        }
    }
}

impl Default for Code {
    fn default() -> (r: Self)
        ensures
            r@ == CodeView::Generated,
    {
        Code::Generated
    }
}

/// Any text given as the code makes it a custom one.
impl From<String> for Code {
    fn from(value: String) -> (r: Self) {
        Code::Custom(value)
    }
}

impl vstd::std_specs::convert::FromSpecImpl<String> for Code {
    open spec fn obeys_from_spec() -> bool {
        true
    }

    open spec fn from_spec(value: String) -> Self {
        Code::Custom(value)
    }
}

} // verus!
