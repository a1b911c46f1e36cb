//! The protocols that the proxy tells apart.

use vstd::prelude::*;

verus! {

/// What the first bytes of a client connection were recognised as.
#[derive(Clone, Copy, Debug, PartialEq, Eq, Structural)]
pub enum Protocol {
    Ssh,
    Http,
    WebSocketUpgrade,
    OpenVpn,
    Tls,
    Unknown,
}

impl Protocol {
    /// Whether a client that speaks this protocol can read an HTTP response.
    pub open spec fn http_aware(self) -> bool {
        self == Protocol::Http || self == Protocol::WebSocketUpgrade
    }

    /// Whether a client that speaks this protocol can read an HTTP response.
    pub fn is_http_aware(&self) -> (r: bool)
        ensures
            r == self.http_aware(),
    {
        match self {
            Protocol::Http | Protocol::WebSocketUpgrade => true,
            _ => false,
        }
    }
}

} // verus!
