//! Routing of outbound events to the peers of a TCP listener.
use vstd::prelude::*;
use crate::value::Value;
use crate::event::{EventOriginUri, StreamIdGen, decimal, decimal_text};

verus! {

/// A peer of a listener, the key that routes an outbound event to it.
#[derive(Debug)]
pub struct ConnectionMeta {
    pub host: String,
    pub port: u16,
}

/// The peer that an event's metadata names: `peer.host`, a string, and
/// `peer.port`, an integer that fits a port.
pub open spec fn peer_of(meta: Value) -> Option<(Seq<char>, u16)> {
    match meta.lookup("peer"@) {
        Some(peer) => match (peer.lookup("port"@), peer.lookup("host"@)) {
            (Some(port), Some(Value::String(host))) => match port.uint_value() {
                Some(p) => if p <= u16::MAX as u64 {
                    Some((host@, p as u16))
                } else {
                    None
                },
                None => None,
            },
            _ => None,
        },
        None => None,
    }
}

/// Reads the peer an outbound event is meant for.
pub fn resolve_connection_meta(meta: &Value) -> (r: Option<ConnectionMeta>)
    ensures
        match peer_of(*meta) {
            Some((host, port)) => (r matches Some(c) && c.host@ == host && c.port == port),
            None => r is None,
        },
{
    let peer = match meta.get("peer") {
        Some(p) => p,
        None => {
            return None;
        },
    };
    let port = match peer.get("port") {
        Some(p) => match p.as_u64() {
            Some(u) => if u <= u16::MAX as u64 {
                u as u16
            } else {
                return None;
            },
            None => {
                return None;
            },
        },
        None => {
            return None;
        },
    };
    match peer.get("host") {
        Some(Value::String(host)) => Some(ConnectionMeta { host: host.clone(), port }),
        _ => None,
    }
}

/// A `{host, port}` record.
pub open spec fn is_peer_record(v: Value, host: Seq<char>, port: u16) -> bool {
    match v {
        Value::Object(p) => {
            &&& p@.len() == 2
            &&& p@[0].0@ == "host"@
            &&& p@[0].1 matches Value::String(h) && h@ == host
            &&& p@[1].0@ == "port"@
            &&& p@[1].1 == Value::U64(port as u64)
        },
        _ => false,
    }
}

/// A `{tls, peer: {host, port}}` record.
pub open spec fn is_peer_meta(v: Value, host: Seq<char>, port: u16, tls: bool) -> bool {
    match v {
        Value::Object(es) => {
            &&& es@.len() == 2
            &&& es@[0].0@ == "tls"@
            &&& es@[0].1 == Value::Bool(tls)
            &&& es@[1].0@ == "peer"@
            &&& is_peer_record(es@[1].1, host, port)
        },
        _ => false,
    }
}

/// The metadata of events read from a peer: whether the connection uses
/// TLS, and the peer's host and port.
pub fn peer_meta(host: String, port: u16, tls: bool) -> (r: Value)
    ensures
        is_peer_meta(r, host@, port, tls),
{
    let mut peer: Vec<(String, Value)> = Vec::new();
    peer.push(("host".to_owned(), Value::String(host)));
    peer.push(("port".to_owned(), Value::U64(port as u64)));
    let mut entries: Vec<(String, Value)> = Vec::new();
    entries.push(("tls".to_owned(), Value::Bool(tls)));
    entries.push(("peer".to_owned(), Value::Object(peer)));
    Value::Object(entries)
}

/// What a listener sets up for an accepted peer.
#[derive(Debug)]
pub struct Accepted {
    /// The new stream's id.
    pub stream_id: u64,
    /// The key that routes outbound events to the peer.
    pub connection_meta: ConnectionMeta,
    /// The provenance of events read from the peer.
    pub origin_uri: EventOriginUri,
    /// The metadata of events read from the peer.
    pub meta: Value,
}

/// The scheme of events from a TCP listener.
pub open spec fn tcp_scheme() -> Seq<char> {
    "tremor-tcp-server"@
}

/// Sets up an accepted peer of a listener on `server_port`: a fresh stream
/// id, the peer as routing key, provenance `scheme://peer_host:peer_port`
/// with the server port as path, and the peer's metadata.
pub fn accept_peer(
    ids: &mut StreamIdGen,
    scheme: &str,
    peer_host: String,
    peer_port: u16,
    server_port: u16,
    tls: bool,
) -> (r: Accepted)
    requires
        old(ids).spec_next() < u64::MAX,
    ensures
        r.stream_id == old(ids).spec_next(),
        final(ids).spec_next() == r.stream_id + 1,
        r.connection_meta.host@ == peer_host@,
        r.connection_meta.port == peer_port,
        r.origin_uri.scheme@ == scheme@,
        r.origin_uri.host@ == peer_host@,
        r.origin_uri.port == Some(peer_port),
        r.origin_uri.path@.len() == 1,
        r.origin_uri.path@[0]@ == decimal_text(server_port as u64),
        is_peer_meta(r.meta, peer_host@, peer_port, tls),
{
    let stream_id = ids.next_stream_id();
    let mut path: Vec<String> = Vec::new();
    path.push(decimal(server_port as u64));
    let origin_uri = EventOriginUri {
        scheme: scheme.to_owned(),
        host: peer_host.clone(),
        port: Some(peer_port),
        path,
    };
    let meta = peer_meta(peer_host.clone(), peer_port, tls);
    Accepted {
        stream_id,
        connection_meta: ConnectionMeta { host: peer_host, port: peer_port },
        origin_uri,
        meta,
    }
}

/// Sets up an accepted peer of a TCP listener.
pub fn accept_tcp_peer(
    ids: &mut StreamIdGen,
    peer_host: String,
    peer_port: u16,
    server_port: u16,
    tls: bool,
) -> (r: Accepted)
    requires
        old(ids).spec_next() < u64::MAX,
    ensures
        r.stream_id == old(ids).spec_next(),
        final(ids).spec_next() == r.stream_id + 1,
        r.connection_meta.host@ == peer_host@,
        r.connection_meta.port == peer_port,
        r.origin_uri.scheme@ == tcp_scheme(),
        r.origin_uri.host@ == peer_host@,
        r.origin_uri.port == Some(peer_port),
        r.origin_uri.path@.len() == 1,
        r.origin_uri.path@[0]@ == decimal_text(server_port as u64),
        is_peer_meta(r.meta, peer_host@, peer_port, tls),
{
    accept_peer(ids, "tremor-tcp-server", peer_host, peer_port, server_port, tls)
}

} // verus!
