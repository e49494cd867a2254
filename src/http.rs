//! The head of an outbound HTTP request, built from an event's metadata and
//! the connector's configuration.
use vstd::prelude::*;
use crate::value::{Value, same_text, texts, string_list};
use vstd::utf8::is_ascii_chars;

verus! {

/// A header name as HTTP compares it: ASCII letters lowercased.
pub open spec fn lower_char(c: char) -> char {
    if 'A' <= c && c <= 'Z' {
        ((c as u32) + 32) as char
    } else {
        c
    }
}

pub open spec fn lower(s: Seq<char>) -> Seq<char> {
    s.map_values(|c: char| lower_char(c))
}

/// Relies on str::to_ascii_lowercase: ASCII letters lowercased, all else kept.
#[verifier::external_body]
fn ascii_lowercase(s: &str) -> (r: String)
    ensures
        r@ == lower(s@),
{
    s.to_ascii_lowercase()
}


pub uninterp spec fn method_parses(s: Seq<char>) -> bool;

/// Relies on http_types::Method::from_str: whether `s` names an HTTP method
/// it knows, in any case.
#[verifier::external_body]
fn is_http_method(s: &str) -> (r: bool)
    ensures
        r == method_parses(s@),
{
    <http_types::Method as std::str::FromStr>::from_str(s).is_ok()
}

/// Whether `s` parses as an absolute URL, and the port it names.
pub uninterp spec fn parsed_url(s: Seq<char>) -> Option<Option<u16>>;

/// Relies on http_types::Url::parse (the url crate) and Url::port: whether
/// `s` is a valid absolute URL, and the port it names, if any (none where
/// it is the scheme's default).
#[verifier::external_body]
pub(crate) fn parse_url(s: &str) -> (r: Option<Option<u16>>)
    ensures
        r == parsed_url(s@),
{
    match http_types::Url::parse(s) {
        Ok(u) => Some(u.port()),
        Err(_) => None,
    }
}

/// A media type as parsed: its essence and its rendering.
pub uninterp spec fn parsed_mime(s: Seq<char>) -> Option<(Seq<char>, Seq<char>)>;

/// Relies on http_types::Mime::from_str: parses a media type, giving its
/// essence (`type/subtype`) and its rendering with parameters.
#[verifier::external_body]
fn parse_mime(s: &str) -> (r: Option<(String, String)>)
    ensures
        match parsed_mime(s@) {
            None => r is None,
            Some(m) => (r matches Some(p) && p.0@ == m.0 && p.1@ == m.1),
        },
{
    match <http_types::Mime as std::str::FromStr>::from_str(s) {
        Ok(m) => Some((m.essence().to_string(), m.to_string())),
        Err(_) => None,
    }
}

/// A configured header value: one string or several.
#[derive(Debug)]
pub enum HeaderConfigValue {
    Many(Vec<String>),
    One(String),
}

/// The configuration of an HTTP client connector, as the request builder reads it.
#[derive(Debug)]
pub struct HttpClientConfig {
    pub url: String,
    pub method: String,
    pub headers: Vec<(String, HeaderConfigValue)>,
    /// The `Authorization` value that the configured authentication yields.
    pub auth: Option<String>,
}

/// Media types and codec names that correspond.
#[derive(Debug)]
pub struct MimeCodecMap {
    /// Pairs of media type essence and codec name.
    pub entries: Vec<(String, String)>,
}

/// The codec of the first entry for media type `mime`.
pub open spec fn codec_for(entries: Seq<(String, String)>, mime: Seq<char>) -> Option<Seq<char>>
    decreases entries.len(),
{
    if entries.len() == 0 {
        None
    } else if entries[0].0@ == mime {
        Some(entries[0].1@)
    } else {
        codec_for(entries.drop_first(), mime)
    }
}

/// The media type of the first entry for codec `codec`.
pub open spec fn mime_for(entries: Seq<(String, String)>, codec: Seq<char>) -> Option<Seq<char>>
    decreases entries.len(),
{
    if entries.len() == 0 {
        None
    } else if entries[0].1@ == codec {
        Some(entries[0].0@)
    } else {
        mime_for(entries.drop_first(), codec)
    }
}

impl MimeCodecMap {
    pub fn get_codec_name(&self, mime: &str) -> (r: Option<&String>)
        ensures
            match codec_for(self.entries@, mime@) {
                None => r is None,
                Some(c) => (r matches Some(x) && x@ == c),
            },
    {
        let mut i: usize = 0;
        assert(self.entries@.subrange(0, self.entries@.len() as int) =~= self.entries@);
        while i < self.entries.len()
            invariant
                0 <= i <= self.entries@.len(),
                codec_for(self.entries@, mime@) == codec_for(
                    self.entries@.subrange(i as int, self.entries@.len() as int),
                    mime@,
                ),
            decreases self.entries@.len() - i,
        {
            let ghost rest = self.entries@.subrange(i as int, self.entries@.len() as int);
            assert(rest.drop_first() =~= self.entries@.subrange(i + 1, self.entries@.len() as int));
            if same_text(self.entries[i].0.as_str(), mime) {
                return Some(&self.entries[i].1);
            }
            i = i + 1;
        }
        None
    }

    pub fn get_mime_type(&self, codec: &str) -> (r: Option<&String>)
        ensures
            match mime_for(self.entries@, codec@) {
                None => r is None,
                Some(m) => (r matches Some(x) && x@ == m),
            },
    {
        let mut i: usize = 0;
        assert(self.entries@.subrange(0, self.entries@.len() as int) =~= self.entries@);
        while i < self.entries.len()
            invariant
                0 <= i <= self.entries@.len(),
                mime_for(self.entries@, codec@) == mime_for(
                    self.entries@.subrange(i as int, self.entries@.len() as int),
                    codec@,
                ),
            decreases self.entries@.len() - i,
        {
            let ghost rest = self.entries@.subrange(i as int, self.entries@.len() as int);
            assert(rest.drop_first() =~= self.entries@.subrange(i + 1, self.entries@.len() as int));
            if same_text(self.entries[i].1.as_str(), codec) {
                return Some(&self.entries[i].0);
            }
            i = i + 1;
        }
        None
    }
}

/// Header lines as name and value texts.
pub open spec fn header_texts(hs: Seq<(String, String)>) -> Seq<(Seq<char>, Seq<char>)> {
    hs.map_values(|h: (String, String)| (h.0@, h.1@))
}

/// One header line per value, under the lowercased name.
pub open spec fn lines_for(name: Seq<char>, values: Seq<Seq<char>>) -> Seq<(Seq<char>, Seq<char>)> {
    values.map_values(|v: Seq<char>| (lower(name), v))
}

pub open spec fn config_values(v: HeaderConfigValue) -> Seq<Seq<char>> {
    match v {
        HeaderConfigValue::Many(vs) => texts(vs@),
        HeaderConfigValue::One(s) => seq![s@],
    }
}

/// The header lines of the configuration, in order.
pub open spec fn config_lines(hs: Seq<(String, HeaderConfigValue)>) -> Seq<(Seq<char>, Seq<char>)>
    decreases hs.len(),
{
    if hs.len() == 0 {
        seq![]
    } else {
        config_lines(hs.drop_last()) + lines_for(hs.last().0@, config_values(hs.last().1))
    }
}

/// The header lines of a metadata record: strings, or the strings of arrays.
pub open spec fn meta_lines(es: Seq<(String, Value)>) -> Seq<(Seq<char>, Seq<char>)>
    decreases es.len(),
{
    if es.len() == 0 {
        seq![]
    } else {
        meta_lines(es.drop_last()) + lines_for(es.last().0@, string_list(es.last().1))
    }
}

pub open spec fn lines_ascii(ls: Seq<(Seq<char>, Seq<char>)>) -> bool {
    forall|i: int|
        0 <= i < ls.len() ==> is_ascii_chars((#[trigger] ls[i]).0) && is_ascii_chars(ls[i].1)
}

/// The value of the last line named `name`.
pub open spec fn last_value(ls: Seq<(Seq<char>, Seq<char>)>, name: Seq<char>) -> Option<Seq<char>>
    decreases ls.len(),
{
    if ls.len() == 0 {
        None
    } else if ls.last().0 == name {
        Some(ls.last().1)
    } else {
        last_value(ls.drop_last(), name)
    }
}

/// The lines not named `name`.
pub open spec fn without(ls: Seq<(Seq<char>, Seq<char>)>, name: Seq<char>) -> Seq<(Seq<char>, Seq<char>)>
    decreases ls.len(),
{
    if ls.len() == 0 {
        seq![]
    } else if ls.last().0 == name {
        without(ls.drop_last(), name)
    } else {
        without(ls.drop_last(), name).push(ls.last())
    }
}

/// The lines with `name` set to the single value `value`.
pub open spec fn with_set(ls: Seq<(Seq<char>, Seq<char>)>, name: Seq<char>, value: Seq<char>) -> Seq<
    (Seq<char>, Seq<char>),
> {
    without(ls, name).push((name, value))
}

/// Errors of building a request head.
#[derive(PartialEq, Eq, Structural, Clone, Copy, Debug)]
pub enum HttpError {
    /// `request.method` is not a string naming an HTTP method.
    InvalidMethod,
    /// `request.url` is not a string holding a URL.
    InvalidUrl,
    /// A header name or value is not ASCII.
    InvalidHeader,
}

/// The method, URL and header lines of a request.
#[derive(Debug)]
pub struct RequestHead {
    pub method: String,
    pub url: String,
    pub headers: Vec<(String, String)>,
}

pub open spec fn octet_stream() -> Seq<char> {
    "application/octet-stream"@
}

/// The `request` record of an event's metadata.
pub open spec fn request_meta(meta: Option<Value>) -> Option<Value> {
    match meta {
        Some(m) => m.lookup("request"@),
        None => None,
    }
}

pub open spec fn meta_field(meta: Option<Value>, key: Seq<char>) -> Option<Value> {
    match request_meta(meta) {
        Some(r) => r.lookup(key),
        None => None,
    }
}

/// Config lines first, then the lines of `request.headers`.
pub open spec fn merged_lines(meta: Option<Value>, config: HttpClientConfig) -> Seq<(Seq<char>, Seq<char>)> {
    config_lines(config.headers@) + match meta_field(meta, "headers"@) {
        Some(Value::Object(es)) => meta_lines(es@),
        _ => seq![],
    }
}

/// The codec that the request's own content type asks for, where it
/// differs from the configured one.
pub open spec fn codec_overwrite_of(
    meta: Option<Value>,
    config: HttpClientConfig,
    codec_map: MimeCodecMap,
    configured_codec: Seq<char>,
) -> Option<Seq<char>> {
    match last_value(merged_lines(meta, config), "content-type"@) {
        Some(ct) => match parsed_mime(ct) {
            Some(m) => match codec_for(codec_map.entries@, m.0) {
                Some(c) => if c != configured_codec {
                    Some(c)
                } else {
                    None
                },
                None => None,
            },
            None => None,
        },
        None => None,
    }
}

/// The header lines of the request: merged lines; a content type where
/// none parses (the codec's media type, else `application/octet-stream`);
/// the authorization; no content length when chunked.
pub open spec fn final_lines(
    meta: Option<Value>,
    config: HttpClientConfig,
    codec_map: MimeCodecMap,
    configured_codec: Seq<char>,
) -> Seq<(Seq<char>, Seq<char>)> {
    let merged = merged_lines(meta, config);
    let header_ct = match last_value(merged, "content-type"@) {
        Some(ct) => parsed_mime(ct),
        None => None,
    };
    let overwrite = codec_overwrite_of(meta, config, codec_map, configured_codec);
    let codec_mime = match overwrite {
        Some(c) => match mime_for(codec_map.entries@, c) {
            Some(m) => Some(m),
            None => mime_for(codec_map.entries@, configured_codec),
        },
        None => mime_for(codec_map.entries@, configured_codec),
    };
    let codec_ct = match codec_mime {
        Some(m) => parsed_mime(m),
        None => None,
    };
    let with_ct = if header_ct is Some {
        merged
    } else {
        with_set(
            merged,
            "content-type"@,
            match codec_ct {
                Some(m) => m.1,
                None => octet_stream(),
            },
        )
    };
    let with_auth = match config.auth {
        Some(a) => with_set(with_ct, "authorization"@, a@),
        None => with_ct,
    };
    if last_value(merged, "transfer-encoding"@) == Some("chunked"@) {
        without(with_auth, "content-length"@)
    } else {
        with_auth
    }
}

proof fn lemma_texts_push(hs: Seq<(String, String)>, h: (String, String))
    ensures
        header_texts(hs.push(h)) == header_texts(hs).push((h.0@, h.1@)),
{
    assert(header_texts(hs.push(h)) =~= header_texts(hs).push((h.0@, h.1@)));
}

proof fn lemma_texts_take(hs: Seq<(String, String)>, i: int)
    requires
        0 <= i < hs.len(),
    ensures
        header_texts(hs.take(i + 1)).drop_last() == header_texts(hs.take(i)),
        header_texts(hs.take(i + 1)).last() == (hs[i].0@, hs[i].1@),
        header_texts(hs.take(i + 1)).len() == i + 1,
{
    assert(header_texts(hs.take(i + 1)).drop_last() =~= header_texts(hs.take(i)));
}

/// Appends one line per value under the lowercased `name`.
fn append_lines(out: &mut Vec<(String, String)>, name: &str, values: &Vec<String>)
    ensures
        header_texts(final(out)@) == header_texts(old(out)@) + lines_for(name@, texts(values@)),
{
    let lowered = ascii_lowercase(name);
    let mut i: usize = 0;
    while i < values.len()
        invariant
            0 <= i <= values@.len(),
            lowered@ == lower(name@),
            header_texts(out@) == header_texts(old(out)@) + lines_for(
                name@,
                texts(values@.take(i as int)),
            ),
        decreases values@.len() - i,
    {
        let ghost before = out@;
        out.push((lowered.clone(), values[i].clone()));
        proof {
            lemma_texts_push(before, out@.last());
            assert(lines_for(name@, texts(values@.take(i + 1))) =~= lines_for(
                name@,
                texts(values@.take(i as int)),
            ).push((lower(name@), values@[i as int]@)));
        }
        i = i + 1;
    }
    assert(values@.take(values@.len() as int) =~= values@);
}

/// The configuration's header lines, in order.
fn config_header_lines(headers: &Vec<(String, HeaderConfigValue)>) -> (r: Vec<(String, String)>)
    ensures
        header_texts(r@) == config_lines(headers@),
{
    let mut out: Vec<(String, String)> = Vec::new();
    let mut i: usize = 0;
    assert(header_texts(out@) =~= seq![]);
    while i < headers.len()
        invariant
            0 <= i <= headers@.len(),
            header_texts(out@) == config_lines(headers@.take(i as int)),
        decreases headers@.len() - i,
    {
        proof {
            assert(headers@.take(i + 1).drop_last() =~= headers@.take(i as int));
            assert(headers@.take(i + 1).last() == headers@[i as int]);
        }
        let (name, value) = &headers[i];
        match value {
            HeaderConfigValue::Many(vs) => {
                append_lines(&mut out, name.as_str(), vs);
            },
            HeaderConfigValue::One(v) => {
                let mut one: Vec<String> = Vec::new();
                one.push(v.clone());
                assert(texts(one@) =~= seq![v@]);
                append_lines(&mut out, name.as_str(), &one);
            },
        }
        i = i + 1;
    }
    assert(headers@.take(headers@.len() as int) =~= headers@);
    out
}

/// Appends the header lines of a metadata record.
fn append_meta_lines(out: &mut Vec<(String, String)>, entries: &Vec<(String, Value)>)
    ensures
        header_texts(final(out)@) == header_texts(old(out)@) + meta_lines(entries@),
{
    let mut i: usize = 0;
    assert(header_texts(out@) =~= header_texts(old(out)@) + meta_lines(entries@.take(0)));
    while i < entries.len()
        invariant
            0 <= i <= entries@.len(),
            header_texts(out@) == header_texts(old(out)@) + meta_lines(entries@.take(i as int)),
        decreases entries@.len() - i,
    {
        proof {
            assert(entries@.take(i + 1).drop_last() =~= entries@.take(i as int));
            assert(entries@.take(i + 1).last() == entries@[i as int]);
        }
        let (name, value) = &entries[i];
        let vs = value.strings();
        append_lines(out, name.as_str(), &vs);
        i = i + 1;
    }
    assert(entries@.take(entries@.len() as int) =~= entries@);
}

/// Whether every header name and value is ASCII.
fn all_ascii(ls: &Vec<(String, String)>) -> (r: bool)
    ensures
        r == lines_ascii(header_texts(ls@)),
{
    let mut i: usize = 0;
    while i < ls.len()
        invariant
            0 <= i <= ls@.len(),
            forall|k: int|
                0 <= k < i ==> is_ascii_chars((#[trigger] ls@[k]).0@) && is_ascii_chars(ls@[k].1@),
        decreases ls@.len() - i,
    {
        if !(ls[i].0.as_str().is_ascii() && ls[i].1.as_str().is_ascii()) {
            assert(header_texts(ls@)[i as int] == (ls@[i as int].0@, ls@[i as int].1@));
            return false;
        }
        i = i + 1;
    }
    assert forall|k: int| 0 <= k < header_texts(ls@).len() implies is_ascii_chars(
        (#[trigger] header_texts(ls@)[k]).0,
    ) && is_ascii_chars(header_texts(ls@)[k].1) by {
        assert(header_texts(ls@)[k] == (ls@[k].0@, ls@[k].1@));
    }
    true
}

/// The value of the last line named `name`.
fn find_last(ls: &Vec<(String, String)>, name: &str) -> (r: Option<String>)
    ensures
        match last_value(header_texts(ls@), name@) {
            None => r is None,
            Some(v) => (r matches Some(x) && x@ == v),
        },
{
    let mut i: usize = ls.len();
    assert(ls@.take(ls@.len() as int) =~= ls@);
    while i > 0
        invariant
            0 <= i <= ls@.len(),
            last_value(header_texts(ls@), name@) == last_value(header_texts(ls@.take(i as int)), name@),
        decreases i,
    {
        proof {
            lemma_texts_take(ls@, i - 1);
        }
        if same_text(ls[i - 1].0.as_str(), name) {
            return Some(ls[i - 1].1.clone());
        }
        i = i - 1;
    }
    None
}

/// The lines not named `name`.
fn remove_named(ls: &Vec<(String, String)>, name: &str) -> (r: Vec<(String, String)>)
    ensures
        header_texts(r@) == without(header_texts(ls@), name@),
{
    let mut out: Vec<(String, String)> = Vec::new();
    let mut i: usize = 0;
    assert(header_texts(out@) =~= seq![]);
    assert(header_texts(ls@.take(0)) =~= seq![]);
    while i < ls.len()
        invariant
            0 <= i <= ls@.len(),
            header_texts(out@) == without(header_texts(ls@.take(i as int)), name@),
        decreases ls@.len() - i,
    {
        proof {
            lemma_texts_take(ls@, i as int);
        }
        if !same_text(ls[i].0.as_str(), name) {
            let ghost before = out@;
            out.push((ls[i].0.clone(), ls[i].1.clone()));
            proof {
                lemma_texts_push(before, out@.last());
            }
        }
        i = i + 1;
    }
    assert(ls@.take(ls@.len() as int) =~= ls@);
    out
}

/// The lines with `name` set to the single value `value`.
fn set_line(ls: &Vec<(String, String)>, name: &str, value: String) -> (r: Vec<(String, String)>)
    ensures
        header_texts(r@) == with_set(header_texts(ls@), name@, value@),
{
    let mut out = remove_named(ls, name);
    let ghost before = out@;
    out.push((name.to_owned(), value));
    proof {
        lemma_texts_push(before, out@.last());
    }
    out
}

pub open spec fn opt_value(meta: Option<&Value>) -> Option<Value> {
    match meta {
        Some(m) => Some(*m),
        None => None,
    }
}

/// The method: `request.method` when present, which must name one; else the configured one.
pub open spec fn method_outcome(meta: Option<Value>, config: HttpClientConfig) -> Result<Seq<char>, HttpError> {
    match meta_field(meta, "method"@) {
        Some(Value::String(m)) => if method_parses(m@) {
            Ok(m@)
        } else {
            Err(HttpError::InvalidMethod)
        },
        Some(_) => Err(HttpError::InvalidMethod),
        None => Ok(config.method@),
    }
}

/// The URL: `request.url` when present, which must parse; else the configured one.
pub open spec fn url_outcome(meta: Option<Value>, config: HttpClientConfig) -> Result<Seq<char>, HttpError> {
    match meta_field(meta, "url"@) {
        Some(Value::String(u)) => if parsed_url(u@) is Some {
            Ok(u@)
        } else {
            Err(HttpError::InvalidUrl)
        },
        Some(_) => Err(HttpError::InvalidUrl),
        None => Ok(config.url@),
    }
}

pub open spec fn is_chunked(meta: Option<Value>, config: HttpClientConfig) -> bool {
    last_value(merged_lines(meta, config), "transfer-encoding"@) == Some("chunked"@)
}

pub open spec fn opt_text(s: Option<String>) -> Option<Seq<char>> {
    match s {
        Some(t) => Some(t@),
        None => None,
    }
}

/// The chunks handed out with the request: chunked, only the closing
/// ones; buffered, the whole body.
pub open spec fn handed_body(chunked: bool, body: Seq<Vec<u8>>, rest: Seq<Vec<u8>>) -> Seq<Vec<u8>> {
    if chunked {
        rest
    } else {
        body + rest
    }
}

/// Builds one request from an event's metadata and the connector's configuration.
#[derive(Debug)]
pub struct HttpRequestBuilder {
    request: Option<RequestHead>,
    chunked: bool,
    body: Vec<Vec<u8>>,
    codec_overwrite: Option<String>,
}

impl HttpRequestBuilder {
    pub closed spec fn spec_request(&self) -> Option<RequestHead> {
        self.request
    }

    /// The body streams in chunks rather than being buffered.
    pub closed spec fn spec_chunked(&self) -> bool {
        self.chunked
    }

    /// The buffered body chunks.
    pub closed spec fn spec_body(&self) -> Seq<Vec<u8>> {
        self.body@
    }

    /// The codec to serialize with instead of the configured one.
    pub closed spec fn spec_codec_overwrite(&self) -> Option<Seq<char>> {
        opt_text(self.codec_overwrite)
    }

    /// Method and URL come from `request.method` and `request.url` of the
    /// metadata, else from the configuration. Header lines are the
    /// configured ones followed by those of `request.headers`, all kept;
    /// see [`final_lines`] for content type, authorization and chunking.
    pub fn new(
        meta: Option<&Value>,
        codec_map: &MimeCodecMap,
        config: &HttpClientConfig,
        configured_codec: &str,
    ) -> (r: Result<HttpRequestBuilder, HttpError>)
        ensures
            match method_outcome(opt_value(meta), *config) {
                Err(e) => r == Err::<HttpRequestBuilder, HttpError>(e),
                Ok(m) => match url_outcome(opt_value(meta), *config) {
                    Err(e) => r == Err::<HttpRequestBuilder, HttpError>(e),
                    Ok(u) => if !lines_ascii(merged_lines(opt_value(meta), *config)) {
                        r == Err::<HttpRequestBuilder, HttpError>(HttpError::InvalidHeader)
                    } else {
                        (r matches Ok(b) && b.spec_request() matches Some(req) && req.method@ == m
                            && req.url@ == u && header_texts(req.headers@) == final_lines(
                            opt_value(meta),
                            *config,
                            *codec_map,
                            configured_codec@,
                        ) && b.spec_chunked() == is_chunked(opt_value(meta), *config)
                            && b.spec_codec_overwrite() == codec_overwrite_of(
                            opt_value(meta),
                            *config,
                            *codec_map,
                            configured_codec@,
                        ) && b.spec_body().len() == 0)
                    },
                },
            },
    {
        let request_meta = match meta {
            Some(m) => m.get("request"),
            None => None,
        };
        let method_v = match request_meta {
            Some(rm) => rm.get("method"),
            None => None,
        };
        let method = match method_v {
            Some(Value::String(m)) => {
                if is_http_method(m.as_str()) {
                    m.clone()
                } else {
                    return Err(HttpError::InvalidMethod);
                }
            },
            Some(_) => {
                return Err(HttpError::InvalidMethod);
            },
            None => config.method.clone(),
        };
        let url_v = match request_meta {
            Some(rm) => rm.get("url"),
            None => None,
        };
        let url = match url_v {
            Some(Value::String(u)) => {
                if parse_url(u.as_str()).is_some() {
                    u.clone()
                } else {
                    return Err(HttpError::InvalidUrl);
                }
            },
            Some(_) => {
                return Err(HttpError::InvalidUrl);
            },
            None => config.url.clone(),
        };
        let headers_v = match request_meta {
            Some(rm) => rm.get("headers"),
            None => None,
        };
        let mut headers = config_header_lines(&config.headers);
        match headers_v {
            Some(Value::Object(es)) => {
                append_meta_lines(&mut headers, es);
            },
            _ => {
                assert(header_texts(headers@) =~= header_texts(headers@) + seq![]);
            },
        }
        if !all_ascii(&headers) {
            return Err(HttpError::InvalidHeader);
        }
        let chunked = match find_last(&headers, "transfer-encoding") {
            Some(te) => same_text(te.as_str(), "chunked"),
            None => false,
        };
        let header_ct = match find_last(&headers, "content-type") {
            Some(ct) => parse_mime(ct.as_str()),
            None => None,
        };
        let codec_overwrite: Option<String> = match &header_ct {
            Some(parsed) => match codec_map.get_codec_name(parsed.0.as_str()) {
                Some(c) => if !same_text(c.as_str(), configured_codec) {
                    Some(c.clone())
                } else {
                    None
                },
                None => None,
            },
            None => None,
        };
        let configured_mime: Option<String> = match codec_map.get_mime_type(configured_codec) {
            Some(m) => Some(m.clone()),
            None => None,
        };
        let codec_mime: Option<String> = match &codec_overwrite {
            Some(c) => match codec_map.get_mime_type(c.as_str()) {
                Some(m) => Some(m.clone()),
                None => configured_mime,
            },
            None => configured_mime,
        };
        let codec_ct = match &codec_mime {
            Some(m) => parse_mime(m.as_str()),
            None => None,
        };
        let headers = if header_ct.is_some() {
            headers
        } else {
            let ct = match codec_ct {
                Some(parsed) => parsed.1,
                None => "application/octet-stream".to_owned(),
            };
            set_line(&headers, "content-type", ct)
        };
        let headers = match &config.auth {
            Some(a) => set_line(&headers, "authorization", a.clone()),
            None => headers,
        };
        let headers = if chunked {
            remove_named(&headers, "content-length")
        } else {
            headers
        };
        let body: Vec<Vec<u8>> = Vec::new();
        Ok(
            HttpRequestBuilder {
                request: Some(RequestHead { method, url, headers }),
                chunked,
                body,
                codec_overwrite,
            },
        )
    }

    /// The codec to serialize with instead of the configured one.
    pub fn codec_overwrite(&self) -> (r: Option<&String>)
        ensures
            match r {
                Some(c) => self.spec_codec_overwrite() == Some(c@),
                None => self.spec_codec_overwrite() is None,
            },
    {
        match &self.codec_overwrite {
            Some(c) => Some(c),
            None => None,
        }
    }

    /// Whether the body streams in chunks.
    pub fn is_chunked(&self) -> (r: bool)
        ensures
            r == self.spec_chunked(),
    {
        self.chunked
    }

    /// Serialized chunks for the body. Buffered, they are kept and none are
    /// handed back; chunked, they are handed back for the caller to stream.
    pub fn append_data(&mut self, chunks: Vec<Vec<u8>>) -> (r: Vec<Vec<u8>>)
        ensures
            final(self).spec_request() == old(self).spec_request(),
            final(self).spec_chunked() == old(self).spec_chunked(),
            final(self).spec_codec_overwrite() == old(self).spec_codec_overwrite(),
            old(self).spec_chunked() ==> r@ == chunks@,
            old(self).spec_chunked() ==> final(self).spec_body() == old(self).spec_body(),
            !old(self).spec_chunked() ==> r@.len() == 0,
            !old(self).spec_chunked() ==> final(self).spec_body() == old(self).spec_body() + chunks@,
    {
        if self.chunked {
            chunks
        } else {
            let mut chunks = chunks;
            self.body.append(&mut chunks);
            Vec::new()
        }
    }

    /// Hands out the request with the codec's closing chunks `rest` added:
    /// buffered, with the whole body; chunked, with the chunks still to
    /// stream before the body ends. Nothing once the request was taken.
    pub fn finalize(&mut self, rest: Vec<Vec<u8>>) -> (r: Option<(RequestHead, Vec<Vec<u8>>)>)
        ensures
            final(self).spec_request() is None,
            match old(self).spec_request() {
                None => r is None,
                Some(req) => (r matches Some(out) && out.0 == req && out.1@ == handed_body(
                    old(self).spec_chunked(),
                    old(self).spec_body(),
                    rest@,
                )),
            },
    {
        let streamed = self.append_data(rest);
        let mut body: Vec<Vec<u8>> = Vec::new();
        std::mem::swap(&mut body, &mut self.body);
        let out = if self.chunked {
            streamed
        } else {
            body
        };
        match self.request.take() {
            Some(req) => Some((req, out)),
            None => None,
        }
    }

    /// The request, if it streams its body; it is then taken.
    pub fn get_chunked_request(&mut self) -> (r: Option<RequestHead>)
        ensures
            old(self).spec_chunked() ==> r == old(self).spec_request(),
            old(self).spec_chunked() ==> final(self).spec_request() is None,
            !old(self).spec_chunked() ==> r is None,
            !old(self).spec_chunked() ==> final(self).spec_request() == old(self).spec_request(),
            final(self).spec_chunked() == old(self).spec_chunked(),
    {
        if self.chunked {
            self.request.take()
        } else {
            None
        }
    }
}

proof fn lemma_values_concat(a: Seq<(Seq<char>, Seq<char>)>, b: Seq<(Seq<char>, Seq<char>)>, name: Seq<char>)
    ensures
        values_named(a + b, name) == values_named(a, name) + values_named(b, name),
    decreases b.len(),
{
    if b.len() > 0 {
        lemma_values_concat(a, b.drop_last(), name);
        assert((a + b).drop_last() =~= a + b.drop_last());
        assert((a + b).last() == b.last());
        if b.last().0 == name {
            assert(values_named(a, name) + values_named(b, name) =~= (values_named(a, name)
                + values_named(b.drop_last(), name)).push(b.last().1));
        }
    } else {
        assert(a + b =~= a);
        assert(values_named(a, name) + values_named(b, name) =~= values_named(a, name));
    }
}

proof fn lemma_values_without(ls: Seq<(Seq<char>, Seq<char>)>, other: Seq<char>, name: Seq<char>)
    requires
        other != name,
    ensures
        values_named(without(ls, other), name) == values_named(ls, name),
    decreases ls.len(),
{
    if ls.len() > 0 {
        lemma_values_without(ls.drop_last(), other, name);
        let w = without(ls.drop_last(), other);
        assert(w.push(ls.last()).drop_last() =~= w);
    }
}

proof fn lemma_values_set(ls: Seq<(Seq<char>, Seq<char>)>, other: Seq<char>, v: Seq<char>, name: Seq<char>)
    requires
        other != name,
    ensures
        values_named(with_set(ls, other, v), name) == values_named(ls, name),
{
    lemma_values_without(ls, other, name);
    assert(with_set(ls, other, v).drop_last() =~= without(ls, other));
}

/// Header merge: for any header name other than the content type,
/// authorization and content length that the builder sets or drops, the
/// request carries the configured values followed by those of
/// `request.headers`, in order, none dropped and none merged.
pub proof fn lemma_header_merge(
    meta: Option<Value>,
    config: HttpClientConfig,
    codec_map: MimeCodecMap,
    configured_codec: Seq<char>,
    name: Seq<char>,
)
    requires
        name != "content-type"@,
        name != "authorization"@,
        name != "content-length"@,
    ensures
        values_named(final_lines(meta, config, codec_map, configured_codec), name) == values_named(
            config_lines(config.headers@),
            name,
        ) + values_named(
            match meta_field(meta, "headers"@) {
                Some(Value::Object(es)) => meta_lines(es@),
                _ => seq![],
            },
            name,
        ),
{
    let merged = merged_lines(meta, config);
    lemma_values_concat(
        config_lines(config.headers@),
        match meta_field(meta, "headers"@) {
            Some(Value::Object(es)) => meta_lines(es@),
            _ => seq![],
        },
        name,
    );
    let header_ct = match last_value(merged, "content-type"@) {
        Some(ct) => parsed_mime(ct),
        None => None,
    };
    let overwrite = codec_overwrite_of(meta, config, codec_map, configured_codec);
    let codec_mime = match overwrite {
        Some(c) => match mime_for(codec_map.entries@, c) {
            Some(m) => Some(m),
            None => mime_for(codec_map.entries@, configured_codec),
        },
        None => mime_for(codec_map.entries@, configured_codec),
    };
    let codec_ct = match codec_mime {
        Some(m) => parsed_mime(m),
        None => None,
    };
    let ct_value = match codec_ct {
        Some(m) => m.1,
        None => octet_stream(),
    };
    lemma_values_set(merged, "content-type"@, ct_value, name);
    let with_ct = if header_ct is Some {
        merged
    } else {
        with_set(merged, "content-type"@, ct_value)
    };
    match config.auth {
        Some(a) => {
            lemma_values_set(with_ct, "authorization"@, a@, name);
            lemma_values_without(with_set(with_ct, "authorization"@, a@), "content-length"@, name);
        },
        None => {
            lemma_values_without(with_ct, "content-length"@, name);
        },
    }
}

/// The distinct names of `ls`, in order of first appearance.
pub open spec fn distinct_names(ls: Seq<(Seq<char>, Seq<char>)>) -> Seq<Seq<char>>
    decreases ls.len(),
{
    if ls.len() == 0 {
        seq![]
    } else if distinct_names(ls.drop_last()).contains(ls.last().0) {
        distinct_names(ls.drop_last())
    } else {
        distinct_names(ls.drop_last()).push(ls.last().0)
    }
}

/// The values of the lines named `name`, in order.
pub open spec fn values_named(ls: Seq<(Seq<char>, Seq<char>)>, name: Seq<char>) -> Seq<Seq<char>>
    decreases ls.len(),
{
    if ls.len() == 0 {
        seq![]
    } else if ls.last().0 == name {
        values_named(ls.drop_last(), name).push(ls.last().1)
    } else {
        values_named(ls.drop_last(), name)
    }
}

/// `v` is a string holding `t`.
pub open spec fn is_string_of(v: Value, t: Seq<char>) -> bool {
    match v {
        Value::String(s) => s@ == t,
        _ => false,
    }
}

/// `vs` are strings holding the texts `ts`.
pub open spec fn strings_are(vs: Seq<Value>, ts: Seq<Seq<char>>) -> bool {
    &&& vs.len() == ts.len()
    &&& forall|k: int| 0 <= k < vs.len() ==> is_string_of(#[trigger] vs[k], ts[k])
}

/// A record with one entry per header name, in order of first appearance,
/// holding the name's values in order.
pub open spec fn is_headers_record(v: Value, ls: Seq<(Seq<char>, Seq<char>)>) -> bool {
    match v {
        Value::Object(es) => {
            &&& es@.len() == distinct_names(ls).len()
            &&& forall|i: int|
                0 <= i < es@.len() ==> (#[trigger] es@[i]).0@ == distinct_names(ls)[i] && (
                es@[i].1 matches Value::Array(vs) && strings_are(
                    vs@,
                    values_named(ls, distinct_names(ls)[i]),
                ))
        },
        _ => false,
    }
}

fn contains_text(names: &Vec<String>, name: &str) -> (r: bool)
    ensures
        r == texts(names@).contains(name@),
{
    let mut i: usize = 0;
    while i < names.len()
        invariant
            0 <= i <= names@.len(),
            forall|k: int| 0 <= k < i ==> (#[trigger] names@[k])@ != name@,
        decreases names@.len() - i,
    {
        if same_text(names[i].as_str(), name) {
            assert(texts(names@)[i as int] == name@);
            return true;
        }
        i = i + 1;
    }
    assert forall|k: int| 0 <= k < texts(names@).len() implies texts(names@)[k] != name@ by {
        assert(texts(names@)[k] == names@[k]@);
    }
    false
}

fn header_names(ls: &Vec<(String, String)>) -> (r: Vec<String>)
    ensures
        texts(r@) == distinct_names(header_texts(ls@)),
{
    let mut names: Vec<String> = Vec::new();
    let mut i: usize = 0;
    assert(texts(names@) =~= seq![]);
    assert(header_texts(ls@.take(0)) =~= seq![]);
    while i < ls.len()
        invariant
            0 <= i <= ls@.len(),
            texts(names@) == distinct_names(header_texts(ls@.take(i as int))),
        decreases ls@.len() - i,
    {
        proof {
            lemma_texts_take(ls@, i as int);
        }
        if !contains_text(&names, ls[i].0.as_str()) {
            let ghost before = names@;
            names.push(ls[i].0.clone());
            assert(texts(names@) =~= texts(before).push(ls@[i as int].0@));
        }
        i = i + 1;
    }
    assert(ls@.take(ls@.len() as int) =~= ls@);
    names
}

fn values_of(ls: &Vec<(String, String)>, name: &str) -> (r: Vec<Value>)
    ensures
        strings_are(r@, values_named(header_texts(ls@), name@)),
{
    let mut vs: Vec<Value> = Vec::new();
    let mut i: usize = 0;
    assert(header_texts(ls@.take(0)) =~= seq![]);
    while i < ls.len()
        invariant
            0 <= i <= ls@.len(),
            strings_are(vs@, values_named(header_texts(ls@.take(i as int)), name@)),
        decreases ls@.len() - i,
    {
        proof {
            lemma_texts_take(ls@, i as int);
        }
        if same_text(ls[i].0.as_str(), name) {
            let ghost before = vs@;
            vs.push(Value::String(ls[i].1.clone()));
            assert forall|k: int| 0 <= k < vs@.len() implies is_string_of(
                #[trigger] vs@[k],
                values_named(header_texts(ls@.take(i + 1)), name@)[k],
            ) by {
                if k < before.len() {
                    assert(vs@[k] == before[k]);
                }
            }
        }
        i = i + 1;
    }
    assert(ls@.take(ls@.len() as int) =~= ls@);
    vs
}

/// Groups header lines by name: one entry per name, in order of first
/// appearance, holding the name's values as an array of strings.
pub fn headers_record(ls: &Vec<(String, String)>) -> (r: Value)
    ensures
        is_headers_record(r, header_texts(ls@)),
{
    let names = header_names(ls);
    let mut es: Vec<(String, Value)> = Vec::new();
    let mut i: usize = 0;
    while i < names.len()
        invariant
            0 <= i <= names@.len(),
            texts(names@) == distinct_names(header_texts(ls@)),
            es@.len() == i,
            forall|k: int|
                0 <= k < i ==> (#[trigger] es@[k]).0@ == distinct_names(header_texts(ls@))[k] && (
                es@[k].1 matches Value::Array(vs) && strings_are(
                    vs@,
                    values_named(header_texts(ls@), distinct_names(header_texts(ls@))[k]),
                )),
        decreases names@.len() - i,
    {
        assert(texts(names@)[i as int] == names@[i as int]@);
        let vs = values_of(ls, names[i].as_str());
        let ghost before = es@;
        es.push((names[i].clone(), Value::Array(vs)));
        assert forall|k: int| 0 <= k < i + 1 implies (#[trigger] es@[k]).0@ == distinct_names(
            header_texts(ls@),
        )[k] && (es@[k].1 matches Value::Array(vs) && strings_are(
            vs@,
            values_named(header_texts(ls@), distinct_names(header_texts(ls@))[k]),
        )) by {
            if k < i {
                assert(es@[k] == before[k]);
            }
        }
        i = i + 1;
    }
    Value::Object(es)
}

/// The parts of a parsed URL.
#[derive(Debug)]
pub struct UrlParts {
    pub scheme: String,
    /// Empty when the URL names no user.
    pub username: String,
    pub password: Option<String>,
    pub host: Option<String>,
    pub port: Option<u16>,
    pub path: String,
    pub query: Option<String>,
    pub fragment: Option<String>,
}

/// A scalar entry of a metadata record.
pub enum MetaItem {
    Text(Seq<char>),
    Number(u64),
}

pub open spec fn item_is(v: Value, m: MetaItem) -> bool {
    match m {
        MetaItem::Text(t) => is_string_of(v, t),
        MetaItem::Number(n) => v == Value::U64(n),
    }
}

/// `es` holds exactly the entries `items`, in order.
pub open spec fn entries_are(es: Seq<(String, Value)>, items: Seq<(Seq<char>, MetaItem)>) -> bool {
    &&& es.len() == items.len()
    &&& forall|i: int|
        0 <= i < es.len() ==> (#[trigger] es[i]).0@ == items[i].0 && item_is(es[i].1, items[i].1)
}

pub open spec fn opt_item(key: Seq<char>, v: Option<String>) -> Seq<(Seq<char>, MetaItem)> {
    match v {
        Some(t) => seq![(key, MetaItem::Text(t@))],
        None => seq![],
    }
}

/// The entries of a URL's record: scheme; username when not empty;
/// password, host and port when present; path; query and fragment when
/// present.
pub open spec fn url_items(p: UrlParts) -> Seq<(Seq<char>, MetaItem)> {
    seq![("scheme"@, MetaItem::Text(p.scheme@))] + (if p.username@.len() > 0 {
        seq![("username"@, MetaItem::Text(p.username@))]
    } else {
        seq![]
    }) + opt_item("password"@, p.password) + opt_item("host"@, p.host) + (match p.port {
        Some(n) => seq![("port"@, MetaItem::Number(n as u64))],
        None => seq![],
    }) + seq![("path"@, MetaItem::Text(p.path@))] + opt_item("query"@, p.query) + opt_item(
        "fragment"@,
        p.fragment,
    )
}

fn push_item(es: &mut Vec<(String, Value)>, key: &str, v: Value, Ghost(items): Ghost<Seq<(Seq<char>, MetaItem)>>, Ghost(item): Ghost<MetaItem>)
    requires
        entries_are(old(es)@, items),
        item_is(v, item),
    ensures
        entries_are(final(es)@, items.push((key@, item))),
{
    let ghost before = es@;
    es.push((key.to_owned(), v));
    assert forall|i: int| 0 <= i < es@.len() implies (#[trigger] es@[i]).0@ == items.push(
        (key@, item),
    )[i].0 && item_is(es@[i].1, items.push((key@, item))[i].1) by {
        if i < before.len() {
            assert(es@[i] == before[i]);
        }
    }
}

fn push_opt(es: &mut Vec<(String, Value)>, key: &str, v: &Option<String>, Ghost(items): Ghost<Seq<(Seq<char>, MetaItem)>>)
    requires
        entries_are(old(es)@, items),
    ensures
        entries_are(final(es)@, items + opt_item(key@, *v)),
{
    match v {
        Some(t) => {
            push_item(es, key, Value::String(t.clone()), Ghost(items), Ghost(MetaItem::Text(t@)));
            assert(items.push((key@, MetaItem::Text(t@))) =~= items + opt_item(key@, *v));
        },
        None => {
            assert(items + opt_item(key@, *v) =~= items);
        },
    }
}

/// The record of a URL's parts.
pub fn url_record(p: &UrlParts) -> (r: Value)
    ensures
        (r matches Value::Object(es) && entries_are(es@, url_items(*p))),
{
    let mut es: Vec<(String, Value)> = Vec::new();
    let ghost items: Seq<(Seq<char>, MetaItem)> = seq![];
    push_item(&mut es, "scheme", Value::String(p.scheme.clone()), Ghost(items), Ghost(MetaItem::Text(p.scheme@)));
    let ghost items = items.push(("scheme"@, MetaItem::Text(p.scheme@)));
    let ghost items = if p.username@.len() > 0 {
        items.push(("username"@, MetaItem::Text(p.username@)))
    } else {
        items
    };
    if !p.username.as_str().is_empty() {
        push_item(&mut es, "username", Value::String(p.username.clone()), Ghost(items.drop_last()), Ghost(MetaItem::Text(p.username@)));
        assert(items.drop_last().push(("username"@, MetaItem::Text(p.username@))) =~= items);
    }
    push_opt(&mut es, "password", &p.password, Ghost(items));
    let ghost items = items + opt_item("password"@, p.password);
    push_opt(&mut es, "host", &p.host, Ghost(items));
    let ghost items = items + opt_item("host"@, p.host);
    let ghost with_port = match p.port {
        Some(n) => items.push(("port"@, MetaItem::Number(n as u64))),
        None => items,
    };
    match p.port {
        Some(n) => {
            push_item(&mut es, "port", Value::U64(n as u64), Ghost(items), Ghost(MetaItem::Number(n as u64)));
        },
        None => {},
    }
    let ghost items = with_port;
    push_item(&mut es, "path", Value::String(p.path.clone()), Ghost(items), Ghost(MetaItem::Text(p.path@)));
    let ghost items = items.push(("path"@, MetaItem::Text(p.path@)));
    push_opt(&mut es, "query", &p.query, Ghost(items));
    let ghost items = items + opt_item("query"@, p.query);
    push_opt(&mut es, "fragment", &p.fragment, Ghost(items));
    let ghost items = items + opt_item("fragment"@, p.fragment);
    assert(items =~= url_items(*p));
    Value::Object(es)
}

/// The metadata of a request: its method, its header lines grouped by
/// name, the parts of its URL and its URL.
pub fn extract_request_meta(method: &str, url: &str, parts: &UrlParts, headers: &Vec<(String, String)>) -> (r: Value)
    ensures
        (r matches Value::Object(es) && es@.len() == 4 && es@[0].0@ == "method"@ && is_string_of(
            es@[0].1,
            method@,
        ) && es@[1].0@ == "headers"@ && is_headers_record(es@[1].1, header_texts(headers@))
            && es@[2].0@ == "url_parts"@ && (es@[2].1 matches Value::Object(u) && entries_are(
            u@,
            url_items(*parts),
        )) && es@[3].0@ == "url"@ && is_string_of(es@[3].1, url@)),
{
    let mut es: Vec<(String, Value)> = Vec::new();
    es.push(("method".to_owned(), Value::String(method.to_owned())));
    es.push(("headers".to_owned(), headers_record(headers)));
    es.push(("url_parts".to_owned(), url_record(parts)));
    es.push(("url".to_owned(), Value::String(url.to_owned())));
    Value::Object(es)
}

/// The metadata of a response: its status, its header lines grouped by
/// name, and its HTTP version where known.
pub fn extract_response_meta(status: u16, headers: &Vec<(String, String)>, version: &Option<String>) -> (r: Value)
    ensures
        (r matches Value::Object(es) && es@.len() >= 2 && es@[0].0@ == "status"@ && es@[0].1
            == Value::U64(status as u64) && es@[1].0@ == "headers"@ && is_headers_record(
            es@[1].1,
            header_texts(headers@),
        ) && entries_are(es@.skip(2), opt_item("version"@, *version))),
{
    let mut es: Vec<(String, Value)> = Vec::new();
    es.push(("status".to_owned(), Value::U64(status as u64)));
    es.push(("headers".to_owned(), headers_record(headers)));
    match version {
        Some(v) => {
            es.push(("version".to_owned(), Value::String(v.clone())));
        },
        None => {},
    }
    assert(entries_are(es@.skip(2), opt_item("version"@, *version)));
    Value::Object(es)
}

} // verus!
