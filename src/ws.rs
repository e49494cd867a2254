//! The WebSocket listener: its port and the routing of outbound events.
use vstd::prelude::*;

pub use crate::tcp::{resolve_connection_meta, peer_meta, ConnectionMeta, Accepted};
use crate::tcp::{accept_peer, is_peer_meta};
use crate::event::{StreamIdGen, decimal_text};

verus! {

/// The port to listen on: the configured one, else 443 for `wss` and 80
/// otherwise.
pub fn listen_port(scheme: &str, port: Option<u16>) -> (r: u16)
    ensures
        r == match port {
            Some(p) => p,
            None => if scheme@ == "wss"@ {
                443u16
            } else {
                80u16
            },
        },
{
    match port {
        Some(p) => p,
        None => if crate::value::same_text(scheme, "wss") {
            443
        } else {
            80
        },
    }
}

/// The scheme of events from a WebSocket listener.
pub open spec fn ws_scheme() -> Seq<char> {
    "tremor-ws-server"@
}

/// Sets up an accepted peer of a WebSocket listener.
pub fn accept_ws_peer(
    ids: &mut StreamIdGen,
    peer_host: String,
    peer_port: u16,
    server_port: u16,
    tls: bool,
) -> (r: Accepted)
    requires
        old(ids).spec_next() < u64::MAX,
    ensures
        r.stream_id == old(ids).spec_next(),
        final(ids).spec_next() == r.stream_id + 1,
        r.connection_meta.host@ == peer_host@,
        r.connection_meta.port == peer_port,
        r.origin_uri.scheme@ == ws_scheme(),
        r.origin_uri.host@ == peer_host@,
        r.origin_uri.port == Some(peer_port),
        r.origin_uri.path@.len() == 1,
        r.origin_uri.path@[0]@ == decimal_text(server_port as u64),
        is_peer_meta(r.meta, peer_host@, peer_port, tls),
{
    accept_peer(ids, "tremor-ws-server", peer_host, peer_port, server_port, tls)
}

} // verus!
