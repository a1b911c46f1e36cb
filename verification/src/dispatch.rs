//! Where a connection goes once its protocol is known, and what a client is
//! told when its backend cannot be reached.
//!
//! SSH, plain HTTP and WebSocket upgrades have a backend each. Everything
//! else goes to the OpenVPN backend, which is the default: OpenVPN itself,
//! TLS, and what was not recognised.

use crate::ascii::{bytes_of, lemma_ascii_bytes, push_text};
use crate::config::Config;
use crate::protocol::Protocol;
use vstd::prelude::*;
use vstd::string::*;

verus! {

/// Why no connection to a backend came about.
#[derive(Clone, Copy, Debug, PartialEq, Eq, Structural)]
pub enum ConnectError {
    /// Every attempt was refused or failed.
    Unreachable,
    /// The backend did not answer in time.
    TimedOut,
}

/// The address of the backend for a protocol.
pub open spec fn backend_of(protocol: Protocol, config: Config) -> Seq<char> {
    match protocol {
        Protocol::Ssh => config.ssh_backend@,
        Protocol::Http => config.http_backend@,
        Protocol::WebSocketUpgrade => config.websocket_backend@,
        Protocol::OpenVpn => config.openvpn_backend@,
        Protocol::Tls => config.openvpn_backend@,
        Protocol::Unknown => config.openvpn_backend@,
    }
}

/// The response that stands for a failure: 502 where the backend could not
/// be reached, 504 where it did not answer in time.
pub open spec fn failure_text(error: ConnectError) -> Seq<char> {
    match error {
        ConnectError::Unreachable =>
            "HTTP/1.1 502 Bad Gateway\r\nContent-Length: 0\r\nConnection: close\r\n\r\n"@,
        ConnectError::TimedOut =>
            "HTTP/1.1 504 Gateway Timeout\r\nContent-Length: 0\r\nConnection: close\r\n\r\n"@,
    }
}

/// What a client is sent when its backend cannot be reached: a response
/// where the client speaks HTTP, nothing where it does not.
pub open spec fn failure_reply(protocol: Protocol, error: ConnectError) -> Option<Seq<u8>> {
    if protocol.http_aware() {
        Some(bytes_of(failure_text(error)))
    } else {
        None
    }
}

/// The address of the backend for a protocol.
pub fn backend_for<'a>(protocol: Protocol, config: &'a Config) -> (r: &'a str)
    ensures
        r@ == backend_of(protocol, *config),
{
    match protocol {
        Protocol::Ssh => config.ssh_backend.as_str(),
        Protocol::Http => config.http_backend.as_str(),
        Protocol::WebSocketUpgrade => config.websocket_backend.as_str(),
        Protocol::OpenVpn => config.openvpn_backend.as_str(),
        Protocol::Tls => config.openvpn_backend.as_str(),
        Protocol::Unknown => config.openvpn_backend.as_str(),
    }
}

/// The bytes to send to a client whose backend cannot be reached, where
/// there are any to send.
pub fn failure_response(protocol: Protocol, error: ConnectError) -> (r: Option<Vec<u8>>)
    ensures
        r is Some == failure_reply(protocol, error) is Some,
        r matches Some(out) ==> failure_reply(protocol, error) == Some(out@),
{
    if !protocol.is_http_aware() {
        return None;
    }
    proof {
        reveal_strlit("HTTP/1.1 502 Bad Gateway\r\nContent-Length: 0\r\nConnection: close\r\n\r\n");
        lemma_ascii_bytes(
            "HTTP/1.1 502 Bad Gateway\r\nContent-Length: 0\r\nConnection: close\r\n\r\n",
        );
        reveal_strlit(
            "HTTP/1.1 504 Gateway Timeout\r\nContent-Length: 0\r\nConnection: close\r\n\r\n",
        );
        lemma_ascii_bytes(
            "HTTP/1.1 504 Gateway Timeout\r\nContent-Length: 0\r\nConnection: close\r\n\r\n",
        );
    }
    let mut out: Vec<u8> = Vec::new();
    match error {
        ConnectError::Unreachable => {
            push_text(
                &mut out,
                "HTTP/1.1 502 Bad Gateway\r\nContent-Length: 0\r\nConnection: close\r\n\r\n",
            );
        },
        ConnectError::TimedOut => {
            push_text(
                &mut out,
                "HTTP/1.1 504 Gateway Timeout\r\nContent-Length: 0\r\nConnection: close\r\n\r\n",
            );
        },
    }
    assert(out@ =~= bytes_of(failure_text(error)));
    Some(out)
}

} // verus!
