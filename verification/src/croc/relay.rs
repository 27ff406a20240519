//! Relays and the addresses they are reached at.
use vstd::prelude::*;

use crate::number::{decimal, push_decimal};
use crate::text::{push_str, string_from};

verus! {

/// An IP address, held as its textual form (as `IpAddr`'s `Display` writes
/// it) together with its family.
#[derive(Debug, Clone, PartialEq, Eq)]
pub enum IpAddress {
    /// An IPv4 address such as `127.0.0.1`.
    V4(String),
    /// An IPv6 address such as `::1`.
    V6(String),
}

/// An IP address as the contracts see it.
pub enum IpView {
    V4(Seq<char>),
    V6(Seq<char>),
}

impl IpView {
    /// The textual form of the address.
    pub open spec fn text(self) -> Seq<char> {
        match self {
            IpView::V4(t) => t,
            IpView::V6(t) => t,
        }
    }
}

impl View for IpAddress {
    type V = IpView;

    open spec fn view(&self) -> IpView {
        match self {
            IpAddress::V4(t) => IpView::V4(t@),
            IpAddress::V6(t) => IpView::V6(t@),
        }
    }
}

impl IpAddress {
    /// The textual form of the address.
    pub fn text(&self) -> (t: &str)
        ensures
            t@ == self@.text(),
    {
        match self {
            IpAddress::V4(t) => t.as_str(),
            IpAddress::V6(t) => t.as_str(),
        }
    }

    /// Whether this is an IPv4 address.
    pub fn is_ipv4(&self) -> (r: bool)
        ensures
            r == (self@ is V4),
    {
        match self {
            IpAddress::V4(_) => true,
            IpAddress::V6(_) => false,
        }
    }
}

/// A representation of a relay for `croc`.
#[derive(Debug, Clone, PartialEq, Eq)]
pub struct Relay {
    /// The IP address of the relay.
    pub address: IpAddress,
    /// The port of the relay.
    pub port: u16,
}

/// A relay as the contracts see it.
#[verifier::ext_equal]
pub struct RelayView {
    pub address: IpView,
    pub port: u16,
}

impl View for Relay {
    type V = RelayView;

    open spec fn view(&self) -> RelayView {
        RelayView { address: self.address@, port: self.port }
    }
}

/// `address:port` for IPv4 and `[address]:port` for IPv6, the way a socket
/// address is written.
pub open spec fn relay_text(r: RelayView) -> Seq<char> {
    match r.address {
        IpView::V4(t) => t + seq![':'] + decimal(r.port as nat),
        IpView::V6(t) => seq!['['] + t + seq![']', ':'] + decimal(r.port as nat),
    }
}

impl Relay {
    /// Creates a new `Relay`.
    pub fn new(address: IpAddress, port: u16) -> (r: Self)
        ensures
            r@ == (RelayView { address: address@, port }),
    {
        Relay { address, port }
    }

    /// The relay as `croc` takes it in `CROC_RELAY`: `address:port`, with the
    /// address in brackets for IPv6.
    pub fn to_string(&self) -> (s: String)
        ensures
            s@ == relay_text(self@),
    {
        let mut out: Vec<char> = Vec::new();
        match &self.address {
            IpAddress::V4(t) => {
                push_str(&mut out, t.as_str());
                out.push(':');
            },
            IpAddress::V6(t) => {
                out.push('[');
                push_str(&mut out, t.as_str());
                out.push(']');
                out.push(':');
            },
        }
        push_decimal(&mut out, self.port as u64);
        assert(out@ =~= relay_text(self@));
        string_from(out.as_slice())
    }
}

} // verus!
