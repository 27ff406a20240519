//! The elliptic curves `croc` can use for its key exchange.
use vstd::prelude::*;

verus! {

/// Different encryption curves to be used by `croc`.
#[derive(Debug, Clone, Copy, PartialEq, Eq, Structural)]
pub enum EncryptionCurve {
    /// The `p521` encryption curve.
    P521,
    /// The `p256` encryption curve.
    P256,
    /// The `p384` encryption curve.
    P384,
    /// The `siec` encryption curve.
    Siec,
    /// The `ed25519` encryption curve.
    Ed25519,
}

/// The name `croc` gives the curve on its command line.
pub open spec fn curve_name(curve: EncryptionCurve) -> Seq<char> {
    match curve {
        EncryptionCurve::P521 => "p521"@,
        EncryptionCurve::P256 => "p256"@,
        EncryptionCurve::P384 => "p384"@,
        EncryptionCurve::Siec => "siec"@,
        EncryptionCurve::Ed25519 => "ed25519"@,
    }
}

impl EncryptionCurve {
    /// The name of the curve, as `croc --curve` takes it.
    pub fn as_str(&self) -> (s: &'static str)
        ensures
            s@ == curve_name(*self),
    {
        match self {
            EncryptionCurve::P521 => "p521",
            EncryptionCurve::P256 => "p256",
            EncryptionCurve::P384 => "p384",
            EncryptionCurve::Siec => "siec",
            EncryptionCurve::Ed25519 => "ed25519",
        }
    }
}

impl Default for EncryptionCurve {
    fn default() -> (r: Self)
        ensures
            r == EncryptionCurve::P256,
    {
        EncryptionCurve::P256
    }
}

} // verus!
