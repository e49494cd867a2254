use tremor_runtime::config::{
    deny_unknown_fields, gbq_config, CbConfig, ConfigErrorKind, TcpServerConfig,
    UnixSocketServerConfig, WsServerConfig,
};
use tremor_runtime::value::Value;

fn record(entries: Vec<(&str, Value)>) -> Value {
    Value::Object(
        entries
            .into_iter()
            .map(|(k, v)| (k.to_string(), v))
            .collect(),
    )
}

#[test]
fn cb_config_defaults() {
    let c = CbConfig::new(&record(vec![("path", Value::String("in.txt".to_string()))])).unwrap();
    assert_eq!(c.path.as_deref(), Some("in.txt"));
    assert_eq!(c.timeout, 10_000_000_000);
    assert!(!c.expect_batched);
}

#[test]
fn cb_config_reads_all_keys() {
    let c = CbConfig::new(&record(vec![
        ("timeout", Value::U64(5)),
        ("expect_batched", Value::Bool(true)),
        ("path", Value::Null),
    ]))
    .unwrap();
    assert_eq!(c.path, None);
    assert_eq!(c.timeout, 5);
    assert!(c.expect_batched);
}

#[test]
fn cb_config_refuses_unknown_keys() {
    let err = CbConfig::new(&record(vec![
        ("path", Value::String("x".to_string())),
        ("snot", Value::I64(1)),
        ("badger", Value::I64(2)),
    ]))
    .unwrap_err();
    assert_eq!(err.kind, ConfigErrorKind::UnknownField);
    assert_eq!(err.key, "snot");
}

#[test]
fn cb_config_refuses_wrong_kinds() {
    let err = CbConfig::new(&record(vec![("timeout", Value::I64(-1))])).unwrap_err();
    assert_eq!(err.kind, ConfigErrorKind::InvalidField);
    assert_eq!(err.key, "timeout");
    let err = CbConfig::new(&record(vec![("path", Value::I64(1))])).unwrap_err();
    assert_eq!(err.key, "path");
    let err = CbConfig::new(&record(vec![("expect_batched", Value::String("yes".to_string()))]))
        .unwrap_err();
    assert_eq!(err.key, "expect_batched");
}

#[test]
fn config_must_be_a_record() {
    let err = CbConfig::new(&Value::I64(1)).unwrap_err();
    assert_eq!(err.kind, ConfigErrorKind::NotARecord);
}

#[test]
fn unknown_fields_are_denied_for_any_key_list() {
    let known = ["url", "tls", "buf_size"];
    assert!(deny_unknown_fields(&record(vec![("url", Value::Null)]), &known).is_ok());
    assert!(deny_unknown_fields(&record(vec![]), &known).is_ok());
    let err = deny_unknown_fields(&record(vec![("url", Value::Null), ("port", Value::Null)]), &known)
        .unwrap_err();
    assert_eq!(err.kind, ConfigErrorKind::UnknownField);
    assert_eq!(err.key, "port");
}

#[test]
fn sink_fails_if_config_is_missing() {
    let result = gbq_config(&record(vec![]));
    assert!(result.is_err());
    let err = result.unwrap_err();
    assert_eq!(err.kind, ConfigErrorKind::MissingField);
    assert_eq!(err.key, "table_id");
}

#[test]
fn gbq_config_reads_all_keys() {
    let c = gbq_config(&record(vec![
        ("table_id", Value::String("doesnotmatter".to_string())),
        ("connect_timeout", Value::U64(1000000)),
        ("request_timeout", Value::I64(1000000)),
    ]))
    .unwrap();
    assert_eq!(c.table_id, "doesnotmatter");
    assert_eq!(c.connect_timeout, 1000000);
    assert_eq!(c.request_timeout, 1000000);
    let err = gbq_config(&record(vec![
        ("table_id", Value::String("t".to_string())),
        ("connect_timeout", Value::U64(1)),
        ("request_timeout", Value::U64(1)),
        ("extra", Value::Null),
    ]))
    .unwrap_err();
    assert_eq!(err.kind, ConfigErrorKind::UnknownField);
}

#[test]
fn unix_config_defaults_and_refusals() {
    let c = UnixSocketServerConfig::new(&record(vec![("path", Value::String("/tmp/s".to_string()))]))
        .unwrap();
    assert_eq!(c.path, "/tmp/s");
    assert_eq!(c.permissions, None);
    assert_eq!(c.buf_size, 8192);
    let err = UnixSocketServerConfig::new(&record(vec![])).unwrap_err();
    assert_eq!(err.kind, ConfigErrorKind::MissingField);
    assert_eq!(err.key, "path");
    let err = UnixSocketServerConfig::new(&record(vec![
        ("path", Value::String("/tmp/s".to_string())),
        ("permissions", Value::I64(7)),
    ]))
    .unwrap_err();
    assert_eq!(err.kind, ConfigErrorKind::InvalidField);
    assert_eq!(err.key, "permissions");
    let err = UnixSocketServerConfig::new(&record(vec![("mode", Value::Null)])).unwrap_err();
    assert_eq!(err.kind, ConfigErrorKind::UnknownField);
    assert_eq!(err.key, "mode");
}

#[test]
fn tcp_config_needs_a_port() {
    let c = TcpServerConfig::new(&record(vec![(
        "url",
        Value::String("tcp://localhost:4242".to_string()),
    )]))
    .unwrap();
    assert_eq!(c.port, 4242);
    assert_eq!(c.buf_size, 8192);
    assert!(c.tls.is_none());
    let err = TcpServerConfig::new(&record(vec![(
        "url",
        Value::String("tcp://localhost".to_string()),
    )]))
    .unwrap_err();
    assert_eq!(err.kind, ConfigErrorKind::MissingField);
    assert_eq!(err.key, "port");
    let err = TcpServerConfig::new(&record(vec![
        ("url", Value::String("tcp://localhost:1".to_string())),
        ("bogus", Value::I64(1)),
    ]))
    .unwrap_err();
    assert_eq!(err.kind, ConfigErrorKind::UnknownField);
    let err = TcpServerConfig::new(&record(vec![("url", Value::String("not a url".to_string()))]))
        .unwrap_err();
    assert_eq!(err.kind, ConfigErrorKind::InvalidField);
    assert_eq!(err.key, "url");
}

#[test]
fn ws_config_reads_tls() {
    let tls = record(vec![
        ("cert", Value::String("c.pem".to_string())),
        ("key", Value::String("k.pem".to_string())),
    ]);
    let c = WsServerConfig::new(&record(vec![
        ("url", Value::String("wss://0.0.0.0".to_string())),
        ("tls", tls),
    ]))
    .unwrap();
    assert_eq!(c.port, None);
    let tls = c.tls.unwrap();
    assert_eq!(tls.cert, "c.pem");
    assert_eq!(tls.key, "k.pem");
    let err = WsServerConfig::new(&record(vec![
        ("url", Value::String("ws://0.0.0.0:8080".to_string())),
        ("tls", record(vec![("cert", Value::String("c".to_string()))])),
    ]))
    .unwrap_err();
    assert_eq!(err.kind, ConfigErrorKind::MissingField);
    assert_eq!(err.key, "key");
    let err = WsServerConfig::new(&record(vec![
        ("url", Value::String("ws://0.0.0.0:8080".to_string())),
        ("port", Value::U64(1)),
    ]))
    .unwrap_err();
    assert_eq!(err.kind, ConfigErrorKind::UnknownField);
}
