//! Probe destinations.
//!
//! A target is a resolved destination: its network address together with an
//! optional human-readable host label (absent when the input was a literal
//! address). The address is carried as the data the core actually reads:
//! its family, which picks the transport handle, and its textual form, which
//! the presentation layer shows.
use vstd::prelude::*;

verus! {

/// The address family of a destination, which selects the transport handle
/// used to probe it.
#[derive(Clone, Copy, Debug, PartialEq, Eq, Structural)]
pub enum AddrFamily {
    V4,
    V6,
}

/// A resolved network address: its family and its textual form.
#[derive(Clone, Debug)]
pub struct PingAddress {
    pub family: AddrFamily,
    pub text: String,
}

/// One probe destination: a resolved address and an optional host label.
#[derive(Clone, Debug)]
pub struct PingTarget {
    pub host: Option<String>,
    pub addr: PingAddress,
}

/// The label shown for a target: "host (address)" when a host name is
/// known, the bare address otherwise.
pub open spec fn spec_target_display(t: PingTarget) -> Seq<char> {
    match t.host {
        Some(h) => h@ + seq![' ', '('] + t.addr.text@ + seq![')'],
        None => t.addr.text@,
    }
}

impl PingTarget {
    /// A target known only by its address.
    pub fn new(addr: PingAddress) -> (t: PingTarget)
        ensures
            t.host is None,
            t.addr == addr,
    {
        PingTarget { host: None, addr }
    }

    /// A target with a host label.
    pub fn with_host(host: String, addr: PingAddress) -> (t: PingTarget)
        ensures
            t.host matches Some(h) && h == host,
            t.addr == addr,
    {
        PingTarget { host: Some(host), addr }
    }

    /// The label shown for this target.
    pub fn display(&self) -> (s: String)
        ensures
            s@ == spec_target_display(*self),
    {
        match &self.host {
            Some(h) => {
                let mut s = h.clone();
                proof {
                    reveal_strlit(" (");
                    reveal_strlit(")");
                }
                s.append(" (");
                s.append(self.addr.text.as_str());
                s.append(")");
                proof {
                    assert(s@ =~= spec_target_display(*self));
                }
                s
            },
            None => self.addr.text.clone(),
        }
    }
}

} // verus!
