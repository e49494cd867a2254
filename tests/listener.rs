use tremor_runtime::event::decimal;
use tremor_runtime::event::StreamIdGen;
use tremor_runtime::tcp;
use tremor_runtime::unix_socket::{self, PermissionError};
use tremor_runtime::value::Value;
use tremor_runtime::ws;

fn record(entries: Vec<(&str, Value)>) -> Value {
    Value::Object(
        entries
            .into_iter()
            .map(|(k, v)| (k.to_string(), v))
            .collect(),
    )
}

#[test]
fn stream_ids_start_at_one_and_increase() {
    let mut ids = StreamIdGen::new();
    assert_eq!(ids.next_stream_id(), 1);
    assert_eq!(ids.next_stream_id(), 2);
    assert_eq!(ids.next_stream_id(), 3);
}

#[test]
fn tcp_peer_is_read_from_meta() {
    let meta = record(vec![(
        "peer",
        record(vec![
            ("host", Value::String("10.0.0.1".to_string())),
            ("port", Value::U64(8080)),
        ]),
    )]);
    let c = tcp::resolve_connection_meta(&meta).unwrap();
    assert_eq!(c.host, "10.0.0.1");
    assert_eq!(c.port, 8080);
}

#[test]
fn tcp_peer_needs_host_and_valid_port() {
    let no_host = record(vec![("peer", record(vec![("port", Value::U64(1))]))]);
    assert!(tcp::resolve_connection_meta(&no_host).is_none());
    let big_port = record(vec![(
        "peer",
        record(vec![
            ("host", Value::String("h".to_string())),
            ("port", Value::U64(70000)),
        ]),
    )]);
    assert!(tcp::resolve_connection_meta(&big_port).is_none());
    assert!(ws::resolve_connection_meta(&Value::Null).is_none());
}

#[test]
fn peer_meta_round_trips_through_resolve() {
    let meta = tcp::peer_meta("127.0.0.1".to_string(), 443, true);
    let c = ws::resolve_connection_meta(&meta).unwrap();
    assert_eq!(c.host, "127.0.0.1");
    assert_eq!(c.port, 443);
    match meta.get("tls") {
        Some(Value::Bool(true)) => {}
        _ => panic!("tls flag missing"),
    }
}

#[test]
fn ws_default_ports() {
    assert_eq!(ws::listen_port("ws", None), 80);
    assert_eq!(ws::listen_port("wss", None), 443);
    assert_eq!(ws::listen_port("wss", Some(9000)), 9000);
}

#[test]
fn unix_peer_is_a_stream_id() {
    let meta = unix_socket::peer_meta(123);
    assert_eq!(
        unix_socket::resolve_connection_meta(&meta),
        Some(unix_socket::ConnectionMeta(123))
    );
    let bad = record(vec![("peer", Value::String("x".to_string()))]);
    assert_eq!(unix_socket::resolve_connection_meta(&bad), None);
}

#[test]
fn socket_permissions_parse() {
    assert_eq!(unix_socket::socket_permissions(&None), Ok(None));
    let (mode, _mask) = unix_socket::socket_permissions(&Some("u=rwx,g=rx,o=".to_string()))
        .unwrap()
        .unwrap();
    assert_eq!(mode & 0o777, 0o750);
    let (octal, _) = unix_socket::socket_permissions(&Some("=640".to_string()))
        .unwrap()
        .unwrap();
    assert_eq!(octal & 0o777, 0o640);
    for bad in ["rwxr-x---", "u=rwz", "u=r+w", "a=rwxé", "u=r,o=q"] {
        assert_eq!(
            unix_socket::socket_permissions(&Some(bad.to_string())),
            Err(PermissionError::InvalidPermissions),
            "{bad}"
        );
    }
}

#[test]
fn decimal_renders_ports() {
    assert_eq!(decimal(0), "0");
    assert_eq!(decimal(7), "7");
    assert_eq!(decimal(8080), "8080");
    assert_eq!(decimal(u64::MAX), "18446744073709551615");
}

#[test]
fn tcp_accept_sets_up_a_peer() {
    let mut ids = StreamIdGen::new();
    let first = tcp::accept_tcp_peer(&mut ids, "10.1.1.1".to_string(), 5555, 4242, false);
    let second = tcp::accept_tcp_peer(&mut ids, "10.1.1.2".to_string(), 6666, 4242, true);
    assert_eq!(first.stream_id, 1);
    assert_eq!(second.stream_id, 2);
    assert_eq!(first.connection_meta.host, "10.1.1.1");
    assert_eq!(first.connection_meta.port, 5555);
    assert_eq!(first.origin_uri.scheme, "tremor-tcp-server");
    assert_eq!(first.origin_uri.host, "10.1.1.1");
    assert_eq!(first.origin_uri.port, Some(5555));
    assert_eq!(first.origin_uri.path, vec!["4242".to_string()]);
    let routed = tcp::resolve_connection_meta(&second.meta).unwrap();
    assert_eq!(routed.host, "10.1.1.2");
    assert_eq!(routed.port, 6666);
    assert!(matches!(second.meta.get("tls"), Some(Value::Bool(true))));
}

#[test]
fn ws_accept_uses_its_scheme() {
    let mut ids = StreamIdGen::new();
    let a = ws::accept_ws_peer(&mut ids, "::1".to_string(), 1, 80, false);
    assert_eq!(a.origin_uri.scheme, "tremor-ws-server");
    assert_eq!(a.origin_uri.path, vec!["80".to_string()]);
    assert!(matches!(a.meta.get("tls"), Some(Value::Bool(false))));
}

#[test]
fn unix_accept_routes_by_stream_id() {
    let mut ids = StreamIdGen::new();
    let a = unix_socket::accept_stream(&mut ids, "box".to_string(), "/tmp/s.sock".to_string());
    assert_eq!(a.stream_id, 1);
    assert_eq!(a.connection_meta, unix_socket::ConnectionMeta(1));
    assert_eq!(a.origin_uri.scheme, "tremor-unix-socket-server");
    assert_eq!(a.origin_uri.port, None);
    assert_eq!(a.origin_uri.path, vec!["/tmp/s.sock".to_string()]);
    assert_eq!(
        unix_socket::resolve_connection_meta(&a.meta),
        Some(unix_socket::ConnectionMeta(1))
    );
}

#[test]
fn panicking_permission_strings_are_recognised() {
    assert!(unix_socket::mode_text_is_safe("u=rwx,g=rx,o="));
    assert!(unix_socket::mode_text_is_safe("=750"));
    assert!(unix_socket::mode_text_is_safe("g=u+w"));
    assert!(unix_socket::mode_text_is_safe("rwxr-x---"));
    assert!(!unix_socket::mode_text_is_safe("u=rwz"));
    assert!(!unix_socket::mode_text_is_safe("u=r+w"));
    assert!(!unix_socket::mode_text_is_safe("ü"));
}
