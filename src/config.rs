//! Checks on connector configuration records: unknown keys are refused,
//! required keys must be present and each key must hold a value of its kind.
use vstd::prelude::*;
use crate::value::{Value, same_text};

verus! {

/// What is wrong with a configuration record.
#[derive(PartialEq, Eq, Structural, Clone, Copy, Debug)]
pub enum ConfigErrorKind {
    /// The configuration is not a record.
    NotARecord,
    /// A key that the connector does not know.
    UnknownField,
    /// A key whose value has the wrong kind.
    InvalidField,
    /// A required key is absent.
    MissingField,
}

/// A configuration error and the key it concerns (empty for `NotARecord`).
#[derive(Debug)]
pub struct ConfigError {
    pub kind: ConfigErrorKind,
    pub key: String,
}

pub open spec fn is_known(known: Seq<&str>, key: Seq<char>) -> bool {
    exists|k: int| 0 <= k < known.len() && (#[trigger] known[k])@ == key
}

/// Whether `key` is one of `known`.
pub fn is_known_key(known: &[&str], key: &str) -> (r: bool)
    ensures
        r == is_known(known@, key@),
{
    let mut i: usize = 0;
    while i < known.len()
        invariant
            0 <= i <= known@.len(),
            forall|k: int| 0 <= k < i ==> (#[trigger] known@[k])@ != key@,
        decreases known@.len() - i,
    {
        if same_text(known[i], key) {
            return true;
        }
        i = i + 1;
    }
    false
}

/// The record's entries, if `raw` is a record.
pub open spec fn record_entries(raw: Value) -> Option<Seq<(String, Value)>> {
    match raw {
        Value::Object(entries) => Some(entries@),
        _ => None,
    }
}

/// Index of the first entry whose key is not one of `known`.
pub open spec fn first_unknown(entries: Seq<(String, Value)>, known: Seq<&str>) -> Option<int>
    decreases entries.len(),
{
    if entries.len() == 0 {
        None
    } else {
        match first_unknown(entries.drop_last(), known) {
            Some(j) => Some(j),
            None => if is_known(known, entries.last().0@) {
                None
            } else {
                Some(entries.len() - 1)
            },
        }
    }
}

/// What checking a record against `known` gives: nothing, or the error's
/// kind and key.
pub open spec fn unknown_check(raw: Value, known: Seq<&str>) -> Option<(ConfigErrorKind, Seq<char>)> {
    match record_entries(raw) {
        None => Some((ConfigErrorKind::NotARecord, seq![])),
        Some(entries) => match first_unknown(entries, known) {
            Some(j) => Some((ConfigErrorKind::UnknownField, entries[j].0@)),
            None => None,
        },
    }
}

pub open spec fn error_is(r: ConfigError, e: (ConfigErrorKind, Seq<char>)) -> bool {
    r.kind == e.0 && r.key@ == e.1
}

/// Refuses a record that holds a key outside `known`; the first such key
/// is reported.
pub fn deny_unknown_fields(raw: &Value, known: &[&str]) -> (r: Result<(), ConfigError>)
    ensures
        match unknown_check(*raw, known@) {
            None => r is Ok,
            Some(e) => (r matches Err(x) && error_is(x, e)),
        },
{
    match raw {
        Value::Object(entries) => {
            let mut i: usize = 0;
            while i < entries.len()
                invariant
                    0 <= i <= entries@.len(),
                    first_unknown(entries@.take(i as int), known@) is None,
                    record_entries(*raw) == Some(entries@),
                decreases entries@.len() - i,
            {
                proof {
                    let t = entries@.take(i + 1);
                    assert(t.drop_last() =~= entries@.take(i as int));
                    assert(t.last() == entries@[i as int]);
                }
                if !is_known_key(known, entries[i].0.as_str()) {
                    let key = entries[i].0.clone();
                    proof {
                        let t = entries@.take(i + 1);
                        assert(t.drop_last() =~= entries@.take(i as int));
                        assert(t.last() == entries@[i as int]);
                        lemma_first_unknown_stays(entries@, known@, i + 1, entries@.len() as int, i as int);
                        assert(entries@.take(entries@.len() as int) =~= entries@);
                        assert(first_unknown(entries@, known@) == Some(i as int));
                    }
                    return Err(ConfigError { kind: ConfigErrorKind::UnknownField, key });
                }
                i = i + 1;
            }
            assert(entries@.take(entries@.len() as int) =~= entries@);
            Ok(())
        },
        _ => Err(ConfigError { kind: ConfigErrorKind::NotARecord, key: String::new() }),
    }
}

proof fn lemma_first_unknown_stays(
    entries: Seq<(String, Value)>,
    known: Seq<&str>,
    i: int,
    n: int,
    idx: int,
)
    requires
        0 <= i <= n <= entries.len(),
        first_unknown(entries.take(i), known) == Some(idx),
    ensures
        first_unknown(entries.take(n), known) == Some(idx),
    decreases n - i,
{
    if i < n {
        assert(entries.take(i + 1).drop_last() =~= entries.take(i));
        lemma_first_unknown_stays(entries, known, i + 1, n, idx);
    }
}

/// An optional key is absent when missing or null.
pub open spec fn absent(v: Option<Value>) -> bool {
    match v {
        None => true,
        Some(Value::Null) => true,
        _ => false,
    }
}

/// The keys of the cb connector's configuration.
pub open spec fn cb_keys() -> Seq<&'static str> {
    seq!["path", "timeout", "expect_batched"]
}

/// Ten seconds, in nanoseconds.
pub open spec fn spec_default_timeout() -> u64 {
    10_000_000_000
}

/// The cb connector waits this long for outstanding acks and fails.
pub fn default_timeout() -> (r: u64)
    ensures
        r == spec_default_timeout(),
{
    10_000_000_000
}

/// The cb configuration that `raw` describes, as path, timeout and
/// batching flag, or the error and key that refuse it. Unknown keys are
/// checked first, then `path`, `timeout` and `expect_batched` in turn.
pub open spec fn cb_config_spec(raw: Value) -> Result<
    (Option<Seq<char>>, u64, bool),
    (ConfigErrorKind, Seq<char>),
> {
    match unknown_check(raw, cb_keys()) {
        Some(e) => Err(e),
        None => {
            let path = raw.lookup("path"@);
            let timeout = raw.lookup("timeout"@);
            let batched = raw.lookup("expect_batched"@);
            if !absent(path) && !(path matches Some(Value::String(_))) {
                Err((ConfigErrorKind::InvalidField, "path"@))
            } else if timeout matches Some(v) && v.uint_value() is None {
                Err((ConfigErrorKind::InvalidField, "timeout"@))
            } else if batched matches Some(v) && !(v is Bool) {
                Err((ConfigErrorKind::InvalidField, "expect_batched"@))
            } else {
                Ok(
                    (
                        match path {
                            Some(Value::String(p)) => Some(p@),
                            _ => None,
                        },
                        match timeout {
                            Some(v) => v.uint_value()->Some_0,
                            None => spec_default_timeout(),
                        },
                        match batched {
                            Some(Value::Bool(b)) => b,
                            _ => false,
                        },
                    ),
                )
            }
        },
    }
}

/// Configuration of the cb connector.
#[derive(Debug)]
pub struct CbConfig {
    /// The file to read events from, one per line.
    pub path: Option<String>,
    /// How long to wait, in nanoseconds, for outstanding acks and fails.
    pub timeout: u64,
    /// Only the latest event must be acked or failed.
    pub expect_batched: bool,
}

pub open spec fn opt_text(s: Option<String>) -> Option<Seq<char>> {
    match s {
        Some(t) => Some(t@),
        None => None,
    }
}

impl CbConfig {
    /// Reads the configuration from a record.
    pub fn new(raw: &Value) -> (r: Result<CbConfig, ConfigError>)
        ensures
            match cb_config_spec(*raw) {
                Ok((path, timeout, batched)) => (r matches Ok(c) && opt_text(c.path) == path
                    && c.timeout == timeout && c.expect_batched == batched),
                Err(e) => (r matches Err(x) && error_is(x, e)),
            },
    {
        let known: [&str; 3] = ["path", "timeout", "expect_batched"];
        assert(known@ =~= cb_keys());
        match deny_unknown_fields(raw, known.as_slice()) {
            Ok(()) => {},
            Err(e) => {
                return Err(e);
            },
        }
        let path = match raw.get("path") {
            None => None,
            Some(Value::Null) => None,
            Some(Value::String(p)) => Some(p.clone()),
            Some(_) => {
                return Err(ConfigError { kind: ConfigErrorKind::InvalidField, key: "path".to_owned() });
            },
        };
        let timeout = match raw.get("timeout") {
            None => default_timeout(),
            Some(v) => match v.as_u64() {
                Some(t) => t,
                None => {
                    return Err(
                        ConfigError { kind: ConfigErrorKind::InvalidField, key: "timeout".to_owned() },
                    );
                },
            },
        };
        let expect_batched = match raw.get("expect_batched") {
            None => false,
            Some(Value::Bool(b)) => *b,
            Some(_) => {
                return Err(
                    ConfigError {
                        kind: ConfigErrorKind::InvalidField,
                        key: "expect_batched".to_owned(),
                    },
                );
            },
        };
        Ok(CbConfig { path, timeout, expect_batched })
    }
}

/// A required string key: its text, or the error that refuses it.
pub open spec fn required_text_spec(raw: Value, key: Seq<char>) -> Result<Seq<char>, (ConfigErrorKind, Seq<char>)> {
    match raw.lookup(key) {
        Some(Value::String(t)) => Ok(t@),
        Some(Value::Null) | None => Err((ConfigErrorKind::MissingField, key)),
        Some(_) => Err((ConfigErrorKind::InvalidField, key)),
    }
}

/// A required unsigned key.
pub open spec fn required_uint_spec(raw: Value, key: Seq<char>) -> Result<u64, (ConfigErrorKind, Seq<char>)> {
    match raw.lookup(key) {
        None => Err((ConfigErrorKind::MissingField, key)),
        Some(v) => match v.uint_value() {
            Some(n) => Ok(n),
            None => Err((ConfigErrorKind::InvalidField, key)),
        },
    }
}

/// An optional string key: absent or null gives none.
pub open spec fn optional_text_spec(raw: Value, key: Seq<char>) -> Result<Option<Seq<char>>, (ConfigErrorKind, Seq<char>)> {
    match raw.lookup(key) {
        Some(Value::String(t)) => Ok(Some(t@)),
        Some(Value::Null) | None => Ok(None),
        Some(_) => Err((ConfigErrorKind::InvalidField, key)),
    }
}

/// An unsigned key with a default.
pub open spec fn uint_or_spec(raw: Value, key: Seq<char>, default: u64) -> Result<u64, (ConfigErrorKind, Seq<char>)> {
    match raw.lookup(key) {
        None => Ok(default),
        Some(v) => match v.uint_value() {
            Some(n) => Ok(n),
            None => Err((ConfigErrorKind::InvalidField, key)),
        },
    }
}

fn field_error(kind: ConfigErrorKind, key: &str) -> (r: ConfigError)
    ensures
        r.kind == kind,
        r.key@ == key@,
{
    ConfigError { kind, key: key.to_owned() }
}

/// Reads a required string key.
pub fn required_text(raw: &Value, key: &str) -> (r: Result<String, ConfigError>)
    ensures
        match required_text_spec(*raw, key@) {
            Ok(t) => (r matches Ok(x) && x@ == t),
            Err(e) => (r matches Err(x) && error_is(x, e)),
        },
{
    match raw.get(key) {
        Some(Value::String(t)) => Ok(t.clone()),
        Some(Value::Null) | None => Err(field_error(ConfigErrorKind::MissingField, key)),
        Some(_) => Err(field_error(ConfigErrorKind::InvalidField, key)),
    }
}

/// Reads a required unsigned key.
pub fn required_uint(raw: &Value, key: &str) -> (r: Result<u64, ConfigError>)
    ensures
        match required_uint_spec(*raw, key@) {
            Ok(n) => r matches Ok(x) && x == n,
            Err(e) => (r matches Err(x) && error_is(x, e)),
        },
{
    match raw.get(key) {
        None => Err(field_error(ConfigErrorKind::MissingField, key)),
        Some(v) => match v.as_u64() {
            Some(n) => Ok(n),
            None => Err(field_error(ConfigErrorKind::InvalidField, key)),
        },
    }
}

/// Reads an optional string key.
pub fn optional_text(raw: &Value, key: &str) -> (r: Result<Option<String>, ConfigError>)
    ensures
        match optional_text_spec(*raw, key@) {
            Ok(t) => (r matches Ok(x) && opt_text(x) == t),
            Err(e) => (r matches Err(x) && error_is(x, e)),
        },
{
    match raw.get(key) {
        Some(Value::String(t)) => Ok(Some(t.clone())),
        Some(Value::Null) | None => Ok(None),
        Some(_) => Err(field_error(ConfigErrorKind::InvalidField, key)),
    }
}

/// Reads an unsigned key with a default.
pub fn uint_or(raw: &Value, key: &str, default: u64) -> (r: Result<u64, ConfigError>)
    ensures
        match uint_or_spec(*raw, key@, default) {
            Ok(n) => r matches Ok(x) && x == n,
            Err(e) => (r matches Err(x) && error_is(x, e)),
        },
{
    match raw.get(key) {
        None => Ok(default),
        Some(v) => match v.as_u64() {
            Some(n) => Ok(n),
            None => Err(field_error(ConfigErrorKind::InvalidField, key)),
        },
    }
}

/// The keys of the table writer's configuration.
pub open spec fn gbq_keys() -> Seq<&'static str> {
    seq!["table_id", "connect_timeout", "request_timeout"]
}

/// The table writer's configuration as table id and two timeouts, or the
/// refusal: unknown keys first, then each key in turn, all required.
pub open spec fn gbq_config_spec(raw: Value) -> Result<(Seq<char>, u64, u64), (ConfigErrorKind, Seq<char>)> {
    match unknown_check(raw, gbq_keys()) {
        Some(e) => Err(e),
        None => match required_text_spec(raw, "table_id"@) {
            Err(e) => Err(e),
            Ok(t) => match required_uint_spec(raw, "connect_timeout"@) {
                Err(e) => Err(e),
                Ok(c) => match required_uint_spec(raw, "request_timeout"@) {
                    Err(e) => Err(e),
                    Ok(q) => Ok((t, c, q)),
                },
            },
        },
    }
}

/// Reads the table writer's configuration.
pub fn gbq_config(raw: &Value) -> (r: Result<crate::gbq::GbqConfig, ConfigError>)
    ensures
        match gbq_config_spec(*raw) {
            Ok((t, c, q)) => (r matches Ok(x) && x.table_id@ == t && x.connect_timeout == c
                && x.request_timeout == q),
            Err(e) => (r matches Err(x) && error_is(x, e)),
        },
{
    let known: [&str; 3] = ["table_id", "connect_timeout", "request_timeout"];
    assert(known@ =~= gbq_keys());
    match deny_unknown_fields(raw, known.as_slice()) {
        Ok(()) => {},
        Err(e) => {
            return Err(e);
        },
    }
    let table_id = match required_text(raw, "table_id") {
        Ok(t) => t,
        Err(e) => {
            return Err(e);
        },
    };
    let connect_timeout = match required_uint(raw, "connect_timeout") {
        Ok(n) => n,
        Err(e) => {
            return Err(e);
        },
    };
    let request_timeout = match required_uint(raw, "request_timeout") {
        Ok(n) => n,
        Err(e) => {
            return Err(e);
        },
    };
    Ok(crate::gbq::GbqConfig { table_id, connect_timeout, request_timeout })
}

/// The receive buffer size of listeners that configure none.
pub open spec fn spec_default_buf_size() -> u64 {
    8192
}

/// The keys of the Unix socket listener's configuration.
pub open spec fn unix_keys() -> Seq<&'static str> {
    seq!["path", "permissions", "buf_size"]
}

/// The Unix socket listener's configuration as socket path, permissions
/// and buffer size, or the refusal: unknown keys first, then each key in
/// turn; only `path` is required.
pub open spec fn unix_config_spec(raw: Value) -> Result<(Seq<char>, Option<Seq<char>>, u64), (ConfigErrorKind, Seq<char>)> {
    match unknown_check(raw, unix_keys()) {
        Some(e) => Err(e),
        None => match required_text_spec(raw, "path"@) {
            Err(e) => Err(e),
            Ok(p) => match optional_text_spec(raw, "permissions"@) {
                Err(e) => Err(e),
                Ok(m) => match uint_or_spec(raw, "buf_size"@, spec_default_buf_size()) {
                    Err(e) => Err(e),
                    Ok(n) => Ok((p, m, n)),
                },
            },
        },
    }
}

/// Configuration of the Unix socket listener.
#[derive(Debug)]
pub struct UnixSocketServerConfig {
    pub path: String,
    /// A chmod-style description of the socket file's permissions.
    pub permissions: Option<String>,
    /// Receive buffer size.
    pub buf_size: u64,
}

impl UnixSocketServerConfig {
    /// Reads the configuration from a record.
    pub fn new(raw: &Value) -> (r: Result<UnixSocketServerConfig, ConfigError>)
        ensures
            match unix_config_spec(*raw) {
                Ok((p, m, n)) => (r matches Ok(x) && x.path@ == p && opt_text(x.permissions) == m
                    && x.buf_size == n),
                Err(e) => (r matches Err(x) && error_is(x, e)),
            },
    {
        let known: [&str; 3] = ["path", "permissions", "buf_size"];
        assert(known@ =~= unix_keys());
        match deny_unknown_fields(raw, known.as_slice()) {
            Ok(()) => {},
            Err(e) => {
                return Err(e);
            },
        }
        let path = match required_text(raw, "path") {
            Ok(t) => t,
            Err(e) => {
                return Err(e);
            },
        };
        let permissions = match optional_text(raw, "permissions") {
            Ok(t) => t,
            Err(e) => {
                return Err(e);
            },
        };
        let buf_size = match uint_or(raw, "buf_size", 8192) {
            Ok(n) => n,
            Err(e) => {
                return Err(e);
            },
        };
        Ok(UnixSocketServerConfig { path, permissions, buf_size })
    }
}

/// Where a listener's TLS certificate and key are.
#[derive(Debug)]
pub struct TlsServerConfig {
    pub cert: String,
    pub key: String,
}

pub open spec fn tls_keys() -> Seq<&'static str> {
    seq!["cert", "key"]
}

/// The TLS settings under key `tls`: absent or null for none, else a
/// record of `cert` and `key`, both required.
pub open spec fn tls_spec(raw: Value) -> Result<Option<(Seq<char>, Seq<char>)>, (ConfigErrorKind, Seq<char>)> {
    match raw.lookup("tls"@) {
        None | Some(Value::Null) => Ok(None),
        Some(t) => if !(t is Object) {
            Err((ConfigErrorKind::InvalidField, "tls"@))
        } else {
            match unknown_check(t, tls_keys()) {
                Some(e) => Err(e),
                None => match required_text_spec(t, "cert"@) {
                    Err(e) => Err(e),
                    Ok(c) => match required_text_spec(t, "key"@) {
                        Err(e) => Err(e),
                        Ok(k) => Ok(Some((c, k))),
                    },
                },
            }
        },
    }
}

pub open spec fn opt_tls(t: Option<TlsServerConfig>) -> Option<(Seq<char>, Seq<char>)> {
    match t {
        Some(x) => Some((x.cert@, x.key@)),
        None => None,
    }
}

/// Reads the TLS settings.
pub fn tls_config(raw: &Value) -> (r: Result<Option<TlsServerConfig>, ConfigError>)
    ensures
        match tls_spec(*raw) {
            Ok(t) => (r matches Ok(x) && opt_tls(x) == t),
            Err(e) => (r matches Err(x) && error_is(x, e)),
        },
{
    match raw.get("tls") {
        None | Some(Value::Null) => Ok(None),
        Some(t) => {
            match t {
                Value::Object(_) => {},
                _ => {
                    return Err(field_error(ConfigErrorKind::InvalidField, "tls"));
                },
            }
            let known: [&str; 2] = ["cert", "key"];
            assert(known@ =~= tls_keys());
            match deny_unknown_fields(t, known.as_slice()) {
                Ok(()) => {},
                Err(e) => {
                    return Err(e);
                },
            }
            let cert = match required_text(t, "cert") {
                Ok(c) => c,
                Err(e) => {
                    return Err(e);
                },
            };
            let key = match required_text(t, "key") {
                Ok(k) => k,
                Err(e) => {
                    return Err(e);
                },
            };
            Ok(Some(TlsServerConfig { cert, key }))
        },
    }
}

/// A required URL: its text and the port it names, or the refusal.
pub open spec fn url_spec(raw: Value) -> Result<(Seq<char>, Option<u16>), (ConfigErrorKind, Seq<char>)> {
    match required_text_spec(raw, "url"@) {
        Err(e) => Err(e),
        Ok(u) => match crate::http::parsed_url(u) {
            Some(p) => Ok((u, p)),
            None => Err((ConfigErrorKind::InvalidField, "url"@)),
        },
    }
}

fn url_field(raw: &Value) -> (r: Result<(String, Option<u16>), ConfigError>)
    ensures
        match url_spec(*raw) {
            Ok((u, p)) => (r matches Ok(x) && x.0@ == u && x.1 == p),
            Err(e) => (r matches Err(x) && error_is(x, e)),
        },
{
    let url = match required_text(raw, "url") {
        Ok(u) => u,
        Err(e) => {
            return Err(e);
        },
    };
    match crate::http::parse_url(url.as_str()) {
        Some(p) => Ok((url, p)),
        None => Err(field_error(ConfigErrorKind::InvalidField, "url")),
    }
}

pub open spec fn tcp_keys() -> Seq<&'static str> {
    seq!["url", "tls", "buf_size"]
}

/// The TCP listener's configuration as URL, port, TLS settings and buffer
/// size, or the refusal: unknown keys, then `url`, `tls` and `buf_size` in
/// turn, then a URL that names no port.
pub open spec fn tcp_config_spec(raw: Value) -> Result<
    (Seq<char>, u16, Option<(Seq<char>, Seq<char>)>, u64),
    (ConfigErrorKind, Seq<char>),
> {
    match unknown_check(raw, tcp_keys()) {
        Some(e) => Err(e),
        None => match url_spec(raw) {
            Err(e) => Err(e),
            Ok((u, p)) => match tls_spec(raw) {
                Err(e) => Err(e),
                Ok(t) => match uint_or_spec(raw, "buf_size"@, spec_default_buf_size()) {
                    Err(e) => Err(e),
                    Ok(n) => match p {
                        Some(port) => Ok((u, port, t, n)),
                        None => Err((ConfigErrorKind::MissingField, "port"@)),
                    },
                },
            },
        },
    }
}

/// Configuration of the TCP listener.
#[derive(Debug)]
pub struct TcpServerConfig {
    pub url: String,
    /// The port the URL names.
    pub port: u16,
    pub tls: Option<TlsServerConfig>,
    /// Receive buffer size.
    pub buf_size: u64,
}

impl TcpServerConfig {
    /// Reads the configuration from a record; the URL must name a port.
    pub fn new(raw: &Value) -> (r: Result<TcpServerConfig, ConfigError>)
        ensures
            match tcp_config_spec(*raw) {
                Ok((u, p, t, n)) => (r matches Ok(x) && x.url@ == u && x.port == p && opt_tls(x.tls)
                    == t && x.buf_size == n),
                Err(e) => (r matches Err(x) && error_is(x, e)),
            },
    {
        let known: [&str; 3] = ["url", "tls", "buf_size"];
        assert(known@ =~= tcp_keys());
        match deny_unknown_fields(raw, known.as_slice()) {
            Ok(()) => {},
            Err(e) => {
                return Err(e);
            },
        }
        let (url, port) = match url_field(raw) {
            Ok(x) => x,
            Err(e) => {
                return Err(e);
            },
        };
        let tls = match tls_config(raw) {
            Ok(t) => t,
            Err(e) => {
                return Err(e);
            },
        };
        let buf_size = match uint_or(raw, "buf_size", 8192) {
            Ok(n) => n,
            Err(e) => {
                return Err(e);
            },
        };
        match port {
            Some(port) => Ok(TcpServerConfig { url, port, tls, buf_size }),
            None => Err(field_error(ConfigErrorKind::MissingField, "port")),
        }
    }
}

pub open spec fn ws_keys() -> Seq<&'static str> {
    seq!["url", "tls"]
}

/// The WebSocket listener's configuration as URL, port if named and TLS
/// settings, or the refusal: unknown keys, then `url` and `tls` in turn.
pub open spec fn ws_config_spec(raw: Value) -> Result<
    (Seq<char>, Option<u16>, Option<(Seq<char>, Seq<char>)>),
    (ConfigErrorKind, Seq<char>),
> {
    match unknown_check(raw, ws_keys()) {
        Some(e) => Err(e),
        None => match url_spec(raw) {
            Err(e) => Err(e),
            Ok((u, p)) => match tls_spec(raw) {
                Err(e) => Err(e),
                Ok(t) => Ok((u, p, t)),
            },
        },
    }
}

/// Configuration of the WebSocket listener.
#[derive(Debug)]
pub struct WsServerConfig {
    pub url: String,
    /// The port the URL names; the listener picks one otherwise.
    pub port: Option<u16>,
    pub tls: Option<TlsServerConfig>,
}

impl WsServerConfig {
    /// Reads the configuration from a record.
    pub fn new(raw: &Value) -> (r: Result<WsServerConfig, ConfigError>)
        ensures
            match ws_config_spec(*raw) {
                Ok((u, p, t)) => (r matches Ok(x) && x.url@ == u && x.port == p && opt_tls(x.tls)
                    == t),
                Err(e) => (r matches Err(x) && error_is(x, e)),
            },
    {
        let known: [&str; 2] = ["url", "tls"];
        assert(known@ =~= ws_keys());
        match deny_unknown_fields(raw, known.as_slice()) {
            Ok(()) => {},
            Err(e) => {
                return Err(e);
            },
        }
        let (url, port) = match url_field(raw) {
            Ok(x) => x,
            Err(e) => {
                return Err(e);
            },
        };
        let tls = match tls_config(raw) {
            Ok(t) => t,
            Err(e) => {
                return Err(e);
            },
        };
        Ok(WsServerConfig { url, port, tls })
    }
}

proof fn lemma_first_unknown_found(entries: Seq<(String, Value)>, known: Seq<&str>, j: int)
    requires
        0 <= j < entries.len(),
        !is_known(known, entries[j].0@),
    ensures
        first_unknown(entries, known) is Some,
    decreases entries.len(),
{
    if j < entries.len() - 1 {
        lemma_first_unknown_found(entries.drop_last(), known, j);
    }
}

/// Unknown keys are refused: a record holding a key outside `known` fails
/// the check with an unknown-field error, and so the configuration of each
/// connector whose keys `known` lists fails to build.
pub proof fn lemma_unknown_key_refused(raw: Value, known: Seq<&str>, j: int)
    requires
        record_entries(raw) is Some,
        0 <= j < record_entries(raw)->Some_0.len(),
        !is_known(known, record_entries(raw)->Some_0[j].0@),
    ensures
        unknown_check(raw, known) matches Some(e) && e.0 == ConfigErrorKind::UnknownField,
        known == cb_keys() ==> (cb_config_spec(raw) matches Err(e) && e.0
            == ConfigErrorKind::UnknownField),
        known == gbq_keys() ==> (gbq_config_spec(raw) matches Err(e) && e.0
            == ConfigErrorKind::UnknownField),
        known == unix_keys() ==> (unix_config_spec(raw) matches Err(e) && e.0
            == ConfigErrorKind::UnknownField),
        known == tcp_keys() ==> (tcp_config_spec(raw) matches Err(e) && e.0
            == ConfigErrorKind::UnknownField),
        known == ws_keys() ==> (ws_config_spec(raw) matches Err(e) && e.0
            == ConfigErrorKind::UnknownField),
{
    lemma_first_unknown_found(record_entries(raw)->Some_0, known, j);
}

} // verus!
