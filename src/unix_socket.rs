//! The Unix socket listener: peers are told apart by stream id alone.
use vstd::prelude::*;
use crate::value::Value;
use vstd::utf8::{encode_utf8, is_ascii_chars};
use crate::event::{EventOriginUri, StreamIdGen};

verus! {

/// A peer of a Unix socket listener: its stream id.
#[derive(PartialEq, Eq, Structural, Clone, Copy, Debug)]
pub struct ConnectionMeta(pub u64);

/// Reads the stream id an outbound event is meant for, from `peer`.
pub fn resolve_connection_meta(meta: &Value) -> (r: Option<ConnectionMeta>)
    ensures
        r == match meta.lookup("peer"@) {
            Some(v) => match v.uint_value() {
                Some(id) => Some(ConnectionMeta(id)),
                None => None,
            },
            None => None,
        },
{
    match meta.get("peer") {
        Some(v) => match v.as_u64() {
            Some(id) => Some(ConnectionMeta(id)),
            None => None,
        },
        None => None,
    }
}

/// The metadata of events read from stream `stream_id`.
pub fn peer_meta(stream_id: u64) -> (r: Value)
    ensures
        (r matches Value::Object(es) && es@.len() == 1 && es@[0].0@ == "peer"@ && es@[0].1
            == Value::U64(stream_id)),
{
    let mut entries: Vec<(String, Value)> = Vec::new();
    entries.push(("peer".to_owned(), Value::U64(stream_id)));
    Value::Object(entries)
}

/// Mode and mask of a chmod-style permission string such as `u=rwx,g=rx,o=` or `=750`.
pub uninterp spec fn parsed_mode(desc: Seq<char>) -> Option<(u32, u32)>;

pub open spec fn is_operator(b: u8) -> bool {
    b == 43 || b == 45 || b == 61
}

/// `u`, `g` or `o`: a user whose bits a clause may copy.
pub open spec fn is_source_user(b: u8) -> bool {
    b == 117 || b == 103 || b == 111
}

/// `u`, `g`, `o` or `a`: a user a clause may name first.
pub open spec fn is_who(b: u8) -> bool {
    is_source_user(b) || b == 97
}

/// One of `rwxXst`.
pub open spec fn is_bit(b: u8) -> bool {
    b == 114 || b == 119 || b == 120 || b == 88 || b == 115 || b == 116
}

pub open spec fn is_octal_digit(b: u8) -> bool {
    48 <= b && b <= 55
}

/// Every byte in `[lo, hi)` is a permission bit.
pub open spec fn all_bits_in(b: Seq<u8>, lo: int, hi: int) -> bool {
    forall|i: int| lo <= i < hi ==> is_bit(#[trigger] b[i])
}

/// The expressions from `p` to `hi` parse without a panic: after an
/// operator comes either a user to copy from, or only permission bits.
pub open spec fn exprs_safe_at(b: Seq<u8>, p: int, hi: int) -> bool
    decreases hi - p,
{
    if p >= hi {
        true
    } else if !is_operator(b[p]) {
        true
    } else if p + 1 >= hi {
        true
    } else if is_source_user(b[p + 1]) {
        exprs_safe_at(b, p + 2, hi)
    } else {
        all_bits_in(b, p + 1, hi)
    }
}

/// Where the users that open a clause end.
pub open spec fn who_end(b: Seq<u8>, p: int, hi: int) -> int
    decreases hi - p,
{
    if p < hi && is_who(b[p]) {
        who_end(b, p + 1, hi)
    } else {
        p
    }
}

/// A clause ending in an octal digit is read as a number; any other as
/// users and expressions.
pub open spec fn clause_safe_at(b: Seq<u8>, lo: int, hi: int) -> bool {
    (hi > lo && is_octal_digit(b[hi - 1])) || exprs_safe_at(b, who_end(b, lo, hi), hi)
}

/// The first comma at or after `p`, or the end.
pub open spec fn comma_at(b: Seq<u8>, p: int) -> int
    decreases b.len() - p,
{
    if p >= b.len() {
        b.len() as int
    } else if b[p] == 44 {
        p
    } else {
        comma_at(b, p + 1)
    }
}

/// Every comma-separated clause from `lo` on parses without a panic.
pub open spec fn mode_safe_from(b: Seq<u8>, lo: int) -> bool
    decreases b.len() - lo + 1
    via mode_safe_from_decreases
{
    if lo < 0 || lo > b.len() {
        true
    } else {
        let c = comma_at(b, lo);
        clause_safe_at(b, lo, c) && (c >= b.len() || mode_safe_from(b, c + 1))
    }
}

proof fn lemma_comma_at_bounds(b: Seq<u8>, p: int)
    requires
        0 <= p <= b.len(),
    ensures
        p <= comma_at(b, p) <= b.len(),
    decreases b.len() - p,
{
    if p < b.len() && b[p] != 44 {
        lemma_comma_at_bounds(b, p + 1);
    }
}

#[via_fn]
proof fn mode_safe_from_decreases(b: Seq<u8>, lo: int) {
    if 0 <= lo <= b.len() {
        lemma_comma_at_bounds(b, lo);
    }
}

/// The permission string's parser returns, with a mode or an error,
/// rather than panicking.
pub open spec fn mode_text_safe(desc: Seq<char>) -> bool {
    is_ascii_chars(desc) && mode_safe_from(encode_utf8(desc), 0)
}

/// Relies on file_mode::Mode::set_str_umask with umask 0 on an empty mode,
/// then Mode::mode_mask: the mode bits a permission string sets, and which
/// bits it decides. The parser panics on a clause whose operator is
/// followed by other than a user or permission bits; `requires` leaves
/// those out.
#[verifier::external_body]
fn parse_mode(desc: &str) -> (r: Option<(u32, u32)>)
    requires
        mode_text_safe(desc@),
    ensures
        r == parsed_mode(desc@),
{
    let mut mode = file_mode::Mode::empty();
    match mode.set_str_umask(desc, 0) {
        Ok(()) => Some(mode.mode_mask()),
        Err(_) => None,
    }
}

fn is_operator_byte(b: u8) -> (r: bool)
    ensures
        r == is_operator(b),
{
    b == 43 || b == 45 || b == 61
}

fn is_source_user_byte(b: u8) -> (r: bool)
    ensures
        r == is_source_user(b),
{
    b == 117 || b == 103 || b == 111
}

fn is_who_byte(b: u8) -> (r: bool)
    ensures
        r == is_who(b),
{
    is_source_user_byte(b) || b == 97
}

fn is_bit_byte(b: u8) -> (r: bool)
    ensures
        r == is_bit(b),
{
    b == 114 || b == 119 || b == 120 || b == 88 || b == 115 || b == 116
}

fn bits_only(b: &[u8], lo: usize, hi: usize) -> (r: bool)
    requires
        lo <= hi <= b@.len(),
    ensures
        r == all_bits_in(b@, lo as int, hi as int),
{
    let mut i = lo;
    while i < hi
        invariant
            lo <= i <= hi <= b@.len(),
            all_bits_in(b@, lo as int, i as int),
        decreases hi - i,
    {
        if !is_bit_byte(b[i]) {
            return false;
        }
        i = i + 1;
    }
    true
}

fn exprs_safe(b: &[u8], p: usize, hi: usize) -> (r: bool)
    requires
        p <= hi <= b@.len(),
    ensures
        r == exprs_safe_at(b@, p as int, hi as int),
    decreases hi - p,
{
    if p >= hi {
        true
    } else if !is_operator_byte(b[p]) {
        true
    } else if p + 1 >= hi {
        true
    } else if is_source_user_byte(b[p + 1]) {
        exprs_safe(b, p + 2, hi)
    } else {
        bits_only(b, p + 1, hi)
    }
}

fn skip_who(b: &[u8], p: usize, hi: usize) -> (r: usize)
    requires
        p <= hi <= b@.len(),
    ensures
        r == who_end(b@, p as int, hi as int),
        p <= r <= hi,
    decreases hi - p,
{
    if p < hi && is_who_byte(b[p]) {
        skip_who(b, p + 1, hi)
    } else {
        p
    }
}

fn next_comma(b: &[u8], p: usize) -> (r: usize)
    requires
        p <= b@.len(),
    ensures
        r == comma_at(b@, p as int),
        p <= r <= b@.len(),
    decreases b@.len() - p,
{
    if p >= b.len() {
        b.len()
    } else if b[p] == 44 {
        p
    } else {
        next_comma(b, p + 1)
    }
}

fn safe_from(b: &[u8], lo: usize) -> (r: bool)
    requires
        lo <= b@.len(),
    ensures
        r == mode_safe_from(b@, lo as int),
    decreases b@.len() - lo,
{
    let c = next_comma(b, lo);
    let clause = (c > lo && 48 <= b[c - 1] && b[c - 1] <= 55) || exprs_safe(b, skip_who(b, lo, c), c);
    if !clause {
        false
    } else if c >= b.len() {
        true
    } else {
        safe_from(b, c + 1)
    }
}

/// Whether the permission string's parser returns rather than panics.
pub fn mode_text_is_safe(desc: &str) -> (r: bool)
    ensures
        r == mode_text_safe(desc@),
{
    if !desc.is_ascii() {
        return false;
    }
    let bytes = desc.as_bytes();
    safe_from(bytes, 0)
}

/// Errors of reading a permission string.
#[derive(PartialEq, Eq, Structural, Clone, Copy, Debug)]
pub enum PermissionError {
    InvalidPermissions,
}

/// The mode and mask to give the socket file: none where no permissions
/// are configured; an error where they do not parse. A string that is not
/// ASCII never parses, and one the parser would panic on is refused too.
pub fn socket_permissions(permissions: &Option<String>) -> (r: Result<Option<(u32, u32)>, PermissionError>)
    ensures
        match permissions {
            None => r == Ok::<Option<(u32, u32)>, PermissionError>(None),
            Some(p) => if !mode_text_safe(p@) {
                r == Err::<Option<(u32, u32)>, PermissionError>(PermissionError::InvalidPermissions)
            } else {
                match parsed_mode(p@) {
                    Some(m) => r == Ok::<Option<(u32, u32)>, PermissionError>(Some(m)),
                    None => r == Err::<Option<(u32, u32)>, PermissionError>(
                        PermissionError::InvalidPermissions,
                    ),
                }
            },
        },
{
    match permissions {
        None => Ok(None),
        Some(p) => {
            if !mode_text_is_safe(p.as_str()) {
                return Err(PermissionError::InvalidPermissions);
            }
            match parse_mode(p.as_str()) {
                Some(m) => Ok(Some(m)),
                None => Err(PermissionError::InvalidPermissions),
            }
        },
    }
}

/// What a Unix socket listener sets up for an accepted peer.
#[derive(Debug)]
pub struct Accepted {
    pub stream_id: u64,
    pub connection_meta: ConnectionMeta,
    pub origin_uri: EventOriginUri,
    pub meta: Value,
}

/// Sets up an accepted peer of a listener on socket `socket_path` of host
/// `host`: a fresh stream id, which is also the routing key and the
/// metadata's `peer`.
pub fn accept_stream(ids: &mut StreamIdGen, host: String, socket_path: String) -> (r: Accepted)
    requires
        old(ids).spec_next() < u64::MAX,
    ensures
        r.stream_id == old(ids).spec_next(),
        final(ids).spec_next() == r.stream_id + 1,
        r.connection_meta == ConnectionMeta(r.stream_id),
        r.origin_uri.scheme@ == "tremor-unix-socket-server"@,
        r.origin_uri.host@ == host@,
        r.origin_uri.port is None,
        r.origin_uri.path@.len() == 1,
        r.origin_uri.path@[0]@ == socket_path@,
        (r.meta matches Value::Object(es) && es@.len() == 1 && es@[0].0@ == "peer"@ && es@[0].1
            == Value::U64(r.stream_id)),
{
    let stream_id = ids.next_stream_id();
    let mut path: Vec<String> = Vec::new();
    path.push(socket_path);
    Accepted {
        stream_id,
        connection_meta: ConnectionMeta(stream_id),
        origin_uri: EventOriginUri {
            scheme: "tremor-unix-socket-server".to_owned(),
            host,
            port: None,
            path,
        },
        meta: peer_meta(stream_id),
    }
}

} // verus!
