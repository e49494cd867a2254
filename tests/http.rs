use tremor_runtime::http::extract_response_meta;
use tremor_runtime::http::{extract_request_meta, UrlParts};
use tremor_runtime::http::headers_record;
use tremor_runtime::http::{
    HeaderConfigValue, HttpClientConfig, HttpError, HttpRequestBuilder, MimeCodecMap, RequestHead,
};
use tremor_runtime::value::Value;

fn codec_map() -> MimeCodecMap {
    MimeCodecMap {
        entries: vec![
            ("application/json".to_string(), "json".to_string()),
            ("text/plain".to_string(), "string".to_string()),
        ],
    }
}

fn cake_config() -> HttpClientConfig {
    HttpClientConfig {
        url: "http://localhost/".to_string(),
        method: "POST".to_string(),
        headers: vec![
            (
                "cake".to_string(),
                HeaderConfigValue::Many(vec!["black forst".to_string(), "cheese".to_string()]),
            ),
            (
                "pie".to_string(),
                HeaderConfigValue::One("key lime".to_string()),
            ),
        ],
        auth: None,
    }
}

fn record(entries: Vec<(&str, Value)>) -> Value {
    Value::Object(
        entries
            .into_iter()
            .map(|(k, v)| (k.to_string(), v))
            .collect(),
    )
}

fn request_meta(entries: Vec<(&str, Value)>) -> Value {
    record(vec![("request", record(entries))])
}

fn values_of<'a>(head: &'a RequestHead, name: &str) -> Vec<&'a str> {
    head.headers
        .iter()
        .filter(|(n, _)| n == name)
        .map(|(_, v)| v.as_str())
        .collect()
}

fn s(v: &str) -> Value {
    Value::String(v.to_string())
}

#[test]
fn builder() {
    let config = cake_config();
    let configured_codec = "json";

    let mut b = HttpRequestBuilder::new(None, &codec_map(), &config, configured_codec).unwrap();

    let (r, _) = b.finalize(vec![]).unwrap();
    assert_eq!(values_of(&r, "pie").len(), 1);
    assert_eq!(values_of(&r, "cake").len(), 2);
}

#[test]
fn meta_headers_are_appended_to_configured_ones() {
    let meta = request_meta(vec![(
        "headers",
        record(vec![("Cake", Value::Array(vec![s("sacher")])), ("tea", s("earl grey"))]),
    )]);
    let b = HttpRequestBuilder::new(Some(&meta), &codec_map(), &cake_config(), "json").unwrap();
    let mut b = b;
    let (r, _) = b.finalize(vec![]).unwrap();
    assert_eq!(values_of(&r, "cake"), vec!["black forst", "cheese", "sacher"]);
    assert_eq!(values_of(&r, "tea"), vec!["earl grey"]);
    assert_eq!(values_of(&r, "pie"), vec!["key lime"]);
}

#[test]
fn method_and_url_come_from_meta_or_config() {
    let mut b = HttpRequestBuilder::new(None, &codec_map(), &cake_config(), "json").unwrap();
    let (r, _) = b.finalize(vec![]).unwrap();
    assert_eq!(r.method, "POST");
    assert_eq!(r.url, "http://localhost/");

    let meta = request_meta(vec![("method", s("put")), ("url", s("https://example.com/x"))]);
    let mut b = HttpRequestBuilder::new(Some(&meta), &codec_map(), &cake_config(), "json").unwrap();
    let (r, _) = b.finalize(vec![]).unwrap();
    assert_eq!(r.method, "put");
    assert_eq!(r.url, "https://example.com/x");
}

#[test]
fn invalid_method_and_url_are_refused() {
    let meta = request_meta(vec![("method", s("FROBNICATE"))]);
    let r = HttpRequestBuilder::new(Some(&meta), &codec_map(), &cake_config(), "json");
    assert_eq!(r.err(), Some(HttpError::InvalidMethod));
    let meta = request_meta(vec![("method", Value::I64(1))]);
    let r = HttpRequestBuilder::new(Some(&meta), &codec_map(), &cake_config(), "json");
    assert_eq!(r.err(), Some(HttpError::InvalidMethod));
    let meta = request_meta(vec![("url", s("not a url"))]);
    let r = HttpRequestBuilder::new(Some(&meta), &codec_map(), &cake_config(), "json");
    assert_eq!(r.err(), Some(HttpError::InvalidUrl));
    let meta = request_meta(vec![("url", Value::Bool(true))]);
    let r = HttpRequestBuilder::new(Some(&meta), &codec_map(), &cake_config(), "json");
    assert_eq!(r.err(), Some(HttpError::InvalidUrl));
}

#[test]
fn non_ascii_headers_are_refused() {
    let meta = request_meta(vec![("headers", record(vec![("x", s("grüße"))]))]);
    let r = HttpRequestBuilder::new(Some(&meta), &codec_map(), &cake_config(), "json");
    assert_eq!(r.err(), Some(HttpError::InvalidHeader));
}

#[test]
fn content_type_defaults_to_the_codec_then_octet_stream() {
    let mut b = HttpRequestBuilder::new(None, &codec_map(), &cake_config(), "json").unwrap();
    assert_eq!(b.codec_overwrite(), None);
    let (r, _) = b.finalize(vec![]).unwrap();
    assert_eq!(values_of(&r, "content-type"), vec!["application/json"]);

    let mut b = HttpRequestBuilder::new(None, &codec_map(), &cake_config(), "msgpack").unwrap();
    let (r, _) = b.finalize(vec![]).unwrap();
    assert_eq!(values_of(&r, "content-type"), vec!["application/octet-stream"]);
}

#[test]
fn header_content_type_overrides_the_codec() {
    let meta = request_meta(vec![(
        "headers",
        record(vec![("Content-Type", s("text/plain; charset=utf-8"))]),
    )]);
    let mut b = HttpRequestBuilder::new(Some(&meta), &codec_map(), &cake_config(), "json").unwrap();
    assert_eq!(b.codec_overwrite().map(|c| c.as_str()), Some("string"));
    let (r, _) = b.finalize(vec![]).unwrap();
    assert_eq!(values_of(&r, "content-type"), vec!["text/plain; charset=utf-8"]);
}

#[test]
fn authorization_is_set_once() {
    let mut config = cake_config();
    config.auth = Some("Bearer abc".to_string());
    config.headers.push((
        "Authorization".to_string(),
        HeaderConfigValue::One("Basic xyz".to_string()),
    ));
    let mut b = HttpRequestBuilder::new(None, &codec_map(), &config, "json").unwrap();
    let (r, _) = b.finalize(vec![]).unwrap();
    assert_eq!(values_of(&r, "authorization"), vec!["Bearer abc"]);
}

#[test]
fn chunked_requests_stream_their_body() {
    let meta = request_meta(vec![(
        "headers",
        record(vec![
            ("transfer-encoding", s("chunked")),
            ("content-length", s("12")),
        ]),
    )]);
    let mut b = HttpRequestBuilder::new(Some(&meta), &codec_map(), &cake_config(), "json").unwrap();
    assert!(b.is_chunked());
    assert_eq!(b.append_data(vec![vec![1u8]]), vec![vec![1u8]]);
    let (r, rest) = b.finalize(vec![vec![2u8]]).unwrap();
    assert!(values_of(&r, "content-length").is_empty());
    assert_eq!(rest, vec![vec![2u8]]);
    assert!(b.finalize(vec![]).is_none());
}

#[test]
fn buffered_requests_collect_their_body() {
    let mut b = HttpRequestBuilder::new(None, &codec_map(), &cake_config(), "json").unwrap();
    assert!(!b.is_chunked());
    assert!(b.append_data(vec![vec![1u8], vec![2u8]]).is_empty());
    assert!(b.get_chunked_request().is_none());
    let (_, body) = b.finalize(vec![vec![3u8]]).unwrap();
    assert_eq!(body, vec![vec![1u8], vec![2u8], vec![3u8]]);
}

fn lines(ls: &[(&str, &str)]) -> Vec<(String, String)> {
    ls.iter().map(|(n, v)| (n.to_string(), v.to_string())).collect()
}

fn strings(v: &Value) -> Vec<String> {
    match v {
        Value::Array(items) => items
            .iter()
            .map(|i| match i {
                Value::String(s) => s.clone(),
                _ => panic!("not a string"),
            })
            .collect(),
        _ => panic!("not an array"),
    }
}

#[test]
fn headers_are_grouped_by_name() {
    let record = headers_record(&lines(&[("a", "1"), ("b", "2"), ("a", "3")]));
    match &record {
        Value::Object(es) => {
            assert_eq!(es.len(), 2);
            assert_eq!(es[0].0, "a");
            assert_eq!(strings(&es[0].1), vec!["1", "3"]);
            assert_eq!(es[1].0, "b");
            assert_eq!(strings(&es[1].1), vec!["2"]);
        }
        _ => panic!("not a record"),
    }
}

#[test]
fn request_meta_holds_method_headers_and_url() {
    let parts = UrlParts {
        scheme: "http".to_string(),
        username: String::new(),
        password: None,
        host: Some("example.com".to_string()),
        port: Some(8080),
        path: "/x".to_string(),
        query: Some("q=1".to_string()),
        fragment: None,
    };
    let meta = extract_request_meta(
        "GET",
        "http://example.com:8080/x?q=1",
        &parts,
        &lines(&[("accept", "*/*")]),
    );
    assert!(matches!(meta.get("method"), Some(Value::String(m)) if m == "GET"));
    assert!(matches!(meta.get("url"), Some(Value::String(u)) if u == "http://example.com:8080/x?q=1"));
    let url_parts = meta.get("url_parts").unwrap();
    match url_parts {
        Value::Object(es) => {
            let keys: Vec<&str> = es.iter().map(|(k, _)| k.as_str()).collect();
            assert_eq!(keys, vec!["scheme", "host", "port", "path", "query"]);
        }
        _ => panic!("not a record"),
    }
    assert!(matches!(url_parts.get("port"), Some(Value::U64(8080))));
    assert_eq!(strings(meta.get("headers").unwrap().get("accept").unwrap()), vec!["*/*"]);
}

#[test]
fn response_meta_holds_status_headers_and_version() {
    let meta = extract_response_meta(404, &lines(&[("x", "1")]), &Some("HTTP/1.1".to_string()));
    assert!(matches!(meta.get("status"), Some(Value::U64(404))));
    assert!(matches!(meta.get("version"), Some(Value::String(v)) if v == "HTTP/1.1"));
    let meta = extract_response_meta(200, &vec![], &None);
    assert!(meta.get("version").is_none());
}
