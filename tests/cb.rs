use tremor_runtime::cb::{CbAction, CbSink, CbSource, EofStep, ReceivedCbs, SinkAck, SinkReply};
use tremor_runtime::config::{default_timeout, CbConfig, ConfigErrorKind};
use tremor_runtime::event::{SourceReply, DEFAULT_STREAM_ID};
use tremor_runtime::value::Value;

fn config(expect_batched: bool) -> CbConfig {
    CbConfig {
        path: Some("in.txt".to_string()),
        timeout: 10_000_000_000,
        expect_batched,
    }
}

/// Feeds the lines of `contents` as pulls 1, 2, 3, ... and reports the end of the file.
fn run_lines(source: &mut CbSource, contents: &str) -> Vec<u64> {
    let mut ids = vec![];
    let mut pull_id = 1u64;
    for line in contents.lines() {
        match source.pull_line(pull_id, line.to_string()) {
            SourceReply::Data { data, stream } => {
                assert_eq!(data, line.as_bytes());
                assert_eq!(stream, DEFAULT_STREAM_ID);
            }
            other => panic!("unexpected reply {:?}", other),
        }
        ids.push(pull_id);
        pull_id += 1;
    }
    assert_eq!(source.pull_eof(), EofStep::EndStream);
    ids
}

fn cmd(s: &str) -> Value {
    Value::Array(vec![Value::String(s.to_string())])
}

fn meta_with_cb(cb: Value) -> Value {
    Value::Object(vec![("cb".to_string(), cb)])
}

#[test]
fn cb_smoke_all_acked_exits_zero() {
    let mut source = CbSource::new(&config(false), "host".to_string()).unwrap();
    let ids = run_lines(&mut source, "a\nb\nc\n");
    let sink = CbSink {};
    for id in &ids {
        let reply = sink.on_event(&vec![(Value::Null, meta_with_cb(cmd("ack")))]);
        assert_eq!(reply.ack, SinkAck::Ack);
        source.ack(DEFAULT_STREAM_ID, *id);
    }
    assert_eq!(source.pull_eof(), EofStep::Finish { wait_ns: 0 });
    let report = source.report();
    assert!(report.all_received);
    assert_eq!(report.acks, vec![1, 2, 3]);
    assert!(report.fails.is_empty());
    assert_eq!(report.exit_code(), 0);
}

#[test]
fn cb_batched_last_ack_suffices() {
    let mut source = CbSource::new(&config(true), "host".to_string()).unwrap();
    run_lines(&mut source, "a\nb\nc\n");
    source.ack(DEFAULT_STREAM_ID, 3);
    assert!(source.did_receive_all());
    assert_eq!(source.pull_eof(), EofStep::Finish { wait_ns: 0 });
    assert_eq!(source.report().exit_code(), 0);
}

#[test]
fn cb_timeout_without_answers_exits_one() {
    let mut source = CbSource::new(&config(false), "host".to_string()).unwrap();
    run_lines(&mut source, "a\nb\nc\n");
    let sink = CbSink {};
    let reply = sink.on_event(&vec![(Value::Null, meta_with_cb(Value::Array(vec![])))]);
    assert_eq!(reply, SinkReply::none());
    assert_eq!(
        source.pull_eof(),
        EofStep::Finish {
            wait_ns: 10_000_000_000
        }
    );
    let report = source.report();
    assert!(!report.all_received);
    assert_eq!(report.last_sent, 3);
    assert_eq!(report.exit_code(), 1);
}

#[test]
fn not_finished_source_has_not_received_all() {
    let mut source = CbSource::new(&config(false), "host".to_string()).unwrap();
    source.pull_line(1, "x".to_string());
    source.ack(DEFAULT_STREAM_ID, 1);
    assert!(!source.did_receive_all());
}

#[test]
fn fails_count_towards_completion() {
    let mut source = CbSource::new(&config(false), "host".to_string()).unwrap();
    run_lines(&mut source, "a\nb\n");
    source.ack(DEFAULT_STREAM_ID, 1);
    source.fail(DEFAULT_STREAM_ID, 2);
    assert!(source.did_receive_all());
    assert_eq!(source.report().fails, vec![2]);
}

#[test]
fn batched_needs_the_latest_id() {
    let mut source = CbSource::new(&config(true), "host".to_string()).unwrap();
    run_lines(&mut source, "a\nb\nc\n");
    source.ack(DEFAULT_STREAM_ID, 2);
    assert!(!source.did_receive_all());
    source.fail(DEFAULT_STREAM_ID, 3);
    assert!(source.did_receive_all());
}

#[test]
fn zero_timeout_does_not_wait() {
    let mut c = config(false);
    c.timeout = 0;
    let mut source = CbSource::new(&c, "host".to_string()).unwrap();
    run_lines(&mut source, "a\n");
    assert_eq!(source.pull_eof(), EofStep::Finish { wait_ns: 0 });
}

#[test]
fn source_needs_a_path() {
    let c = CbConfig {
        path: None,
        timeout: 1,
        expect_batched: false,
    };
    let err = CbSource::new(&c, "host".to_string()).unwrap_err();
    assert_eq!(err.kind, ConfigErrorKind::MissingField);
    assert_eq!(err.key, "path");
}

#[test]
fn source_origin_is_tremor_cb() {
    let source = CbSource::new(&config(false), "myhost".to_string()).unwrap();
    assert_eq!(source.origin_uri().scheme, "tremor-cb");
    assert_eq!(source.origin_uri().host, "myhost");
    assert!(source.is_transactional());
    assert!(!source.asynchronous());
}

#[test]
fn circuit_breaker_signals_are_counted() {
    let mut source = CbSource::new(&config(false), "host".to_string()).unwrap();
    source.on_cb_close();
    source.on_cb_close();
    source.on_cb_open();
    let report = source.report();
    assert!(!report.all_received);
}

#[test]
fn sink_maps_commands_to_replies() {
    let sink = CbSink {};
    let cases = vec![
        (cmd("ack"), SinkAck::Ack, CbAction::Unchanged),
        (cmd("fail"), SinkAck::Fail, CbAction::Unchanged),
        (cmd("close"), SinkAck::Deferred, CbAction::Trigger),
        (cmd("trigger"), SinkAck::Deferred, CbAction::Trigger),
        (cmd("open"), SinkAck::Deferred, CbAction::Restore),
        (cmd("restore"), SinkAck::Deferred, CbAction::Restore),
        (Value::String("ack".to_string()), SinkAck::Ack, CbAction::Unchanged),
        (
            Value::Array(vec![
                Value::String("fail".to_string()),
                Value::I64(1),
                Value::String("ack".to_string()),
                Value::String("open".to_string()),
                Value::String("close".to_string()),
            ]),
            SinkAck::Ack,
            CbAction::Trigger,
        ),
        (Value::I64(3), SinkAck::Deferred, CbAction::Unchanged),
    ];
    for (cb, ack, action) in cases {
        let reply = sink.on_event(&vec![(Value::Null, meta_with_cb(cb))]);
        assert_eq!(reply, SinkReply { ack, cb: action });
    }
    assert!(!sink.auto_ack());
}

#[test]
fn sink_prefers_metadata_over_payload() {
    let sink = CbSink {};
    let payload = meta_with_cb(cmd("fail"));
    let reply = sink.on_event(&vec![(payload, meta_with_cb(cmd("ack")))]);
    assert_eq!(reply.ack, SinkAck::Ack);
    let payload = meta_with_cb(cmd("fail"));
    let reply = sink.on_event(&vec![(payload, Value::Object(vec![]))]);
    assert_eq!(reply.ack, SinkAck::Fail);
}

#[test]
fn sink_uses_first_event_element_with_commands() {
    let sink = CbSink {};
    let reply = sink.on_event(&vec![
        (Value::Null, Value::Null),
        (Value::Null, meta_with_cb(cmd("restore"))),
        (Value::Null, meta_with_cb(cmd("ack"))),
    ]);
    assert_eq!(reply.cb, CbAction::Restore);
    assert_eq!(reply.ack, SinkAck::Deferred);
    assert_eq!(sink.on_event(&vec![]), SinkReply::none());
}

#[test]
fn received_cbs_count_and_max() {
    let mut r = ReceivedCbs::new();
    assert_eq!(r.count(), 0);
    assert_eq!(r.max(), None);
    r.ack.push(4);
    r.ack.push(9);
    r.fail.push(7);
    assert_eq!(r.count(), 3);
    assert_eq!(r.max(), Some(9));
    r.fail.push(12);
    assert_eq!(r.max(), Some(12));
}

#[test]
fn default_timeout_is_ten_seconds() {
    assert_eq!(default_timeout(), 10_000_000_000);
}
