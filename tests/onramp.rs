use tremor_runtime::kafka::OnrampState;
use tremor_runtime::clickhouse::Clickhouse;
use tremor_runtime::cb::SinkReply;
use tremor_runtime::connector::{CodecReq, ConnectorKind};
use tremor_runtime::gbq::{AppendOutcome, GbqConfig, GbqError, GbqSink};
use tremor_runtime::kafka::{join, Config, Kafka, KafkaError, TopicCheck};
use tremor_runtime::protobuf::{TableFieldSchema, TableType};
use tremor_runtime::value::Value;

fn kafka_config(options: Option<Vec<(String, String)>>) -> Config {
    Config {
        group_id: "g".to_string(),
        topics: vec!["t".to_string()],
        brokers: vec!["b1:9092".to_string(), "b2:9092".to_string()],
        sync: false,
        rdkafka_options: options,
    }
}

#[test]
fn kafka_needs_a_config() {
    assert_eq!(Kafka::from_config(None).err(), Some(KafkaError::MissingConfig));
    let k = Kafka::from_config(Some(kafka_config(None))).unwrap();
    assert_eq!(k.default_codec(), "json");
}

#[test]
fn kafka_client_settings() {
    let k = Kafka::from_config(Some(kafka_config(Some(vec![(
        "session.timeout.ms".to_string(),
        "1000".to_string(),
    )]))))
    .unwrap();
    let settings = k.client_settings(Some("box".to_string()));
    assert_eq!(settings[0], ("group.id".to_string(), "g".to_string()));
    assert_eq!(settings[1], ("client.id".to_string(), "tremor-box-0".to_string()));
    assert_eq!(
        settings[2],
        ("bootstrap.servers".to_string(), "b1:9092,b2:9092".to_string())
    );
    assert_eq!(settings.len(), 9);
    assert_eq!(
        settings[8],
        ("session.timeout.ms".to_string(), "1000".to_string())
    );
    let fallback = k.client_settings(None);
    assert_eq!(fallback[1].1, "tremor-tremor-host.local-0");
}

#[test]
fn join_puts_separators_between() {
    assert_eq!(join(&vec![], ","), "");
    assert_eq!(join(&vec!["a".to_string()], ","), "a");
    assert_eq!(join(&vec!["a".to_string(), "b".to_string(), "c".to_string()], ", "), "a, b, c");
}

#[test]
fn topic_check_decides_on_metadata() {
    assert!(matches!(topic_check_of(vec![None]), TopicCheck::Subscribe));
    match topic_check_of(vec![Some("gone".to_string())]) {
        TopicCheck::TopicError(e) => assert_eq!(e, "gone"),
        _ => panic!("expected an error"),
    }
    assert!(matches!(topic_check_of(vec![]), TopicCheck::Unknown));
    assert!(matches!(topic_check_of(vec![None, None]), TopicCheck::Unknown));
}

fn topic_check_of(errors: Vec<Option<String>>) -> TopicCheck {
    tremor_runtime::kafka::topic_check(&errors)
}

#[test]
fn connector_kinds_by_name() {
    assert_eq!(ConnectorKind::from_name("cb"), Some(ConnectorKind::Cb));
    assert_eq!(ConnectorKind::from_name("nope"), None);
    assert_eq!(ConnectorKind::Cb.codec_requirements(), CodecReq::OptionalJson);
    assert_eq!(ConnectorKind::TcpServer.codec_requirements(), CodecReq::Required);
    assert_eq!(ConnectorKind::UnixSocketServer.connector_type(), "unix_socket_server");
    let c = Clickhouse {};
    assert_eq!(c.codec_requirements(), CodecReq::Structured);
    let sink = c.create_sink();
    assert_eq!(sink.on_event(), SinkReply::none());
    assert!(sink.auto_ack());
}

fn gbq_config() -> GbqConfig {
    GbqConfig {
        table_id: "doesnotmatter".to_string(),
        connect_timeout: 1000000,
        request_timeout: 1000000,
    }
}

#[test]
fn on_event_fails_if_client_is_not_conected() {
    let sink = GbqSink::new(gbq_config());
    let result = sink.append_request(&vec![]);
    assert_eq!(result.err(), Some(GbqError::ClientNotConnected));
}

#[test]
fn on_event_fails_if_write_stream_is_not_conected() {
    let mut sink = GbqSink::new(gbq_config());
    sink.set_client();
    let result = sink.append_request(&vec![]);
    assert_eq!(result.err(), Some(GbqError::WriteStreamNotAvailable));
}

#[test]
fn gbq_serializes_each_value_as_a_row() {
    let mut sink = GbqSink::new(gbq_config());
    let schema = vec![TableFieldSchema {
        name: "a".to_string(),
        field_type: TableType::Int64.code(),
        fields: vec![],
    }];
    assert!(sink.connected("streams/1".to_string(), Some(&schema)).is_ok());
    let row = |v: i64| Value::Object(vec![("a".to_string(), Value::I64(v))]);
    let req = sink.append_request(&vec![row(1), row(2)]).unwrap();
    assert_eq!(req.write_stream, "streams/1");
    assert_eq!(req.rows, vec![vec![8u8, 1u8], vec![8u8, 2u8]]);
    assert_eq!(req.descriptor.name, "table");
    assert_eq!(req.descriptor.fields.len(), 1);
    assert_eq!(req.descriptor.fields[0].name, "a");
    let err = sink.append_request(&vec![row(1), Value::I64(3)]).err().unwrap();
    assert!(matches!(err, GbqError::Mapping(_)));
    let (reply, lost) = GbqSink::reply_for_error(err).unwrap();
    assert_eq!(reply.ack, tremor_runtime::cb::SinkAck::Fail);
    assert!(!lost);
    assert!(GbqSink::reply_for_error(GbqError::ClientNotConnected).is_none());
}

#[test]
fn gbq_reply_for_outcomes() {
    let (reply, lost) = GbqSink::reply_for(AppendOutcome::TimedOut);
    assert!(lost);
    assert_eq!(reply.ack, tremor_runtime::cb::SinkAck::Fail);
    let (reply, lost) = GbqSink::reply_for(AppendOutcome::Appended);
    assert!(!lost);
    assert_eq!(reply.ack, tremor_runtime::cb::SinkAck::Ack);
    let (reply, _) = GbqSink::reply_for(AppendOutcome::Refused);
    assert_eq!(reply.ack, tremor_runtime::cb::SinkAck::Fail);
    assert_eq!(GbqSink::reply_for(AppendOutcome::NoAnswer).0, SinkReply::none());
}

#[test]
fn onramp_pipelines_connect_and_disconnect() {
    let mut state = OnrampState::new();
    assert!(!state.has_pipelines());
    state.connect(vec!["ingest".to_string(), "enrich".to_string(), "ingest".to_string()]);
    assert!(state.has_pipelines());
    assert!(!state.disconnect("ingest"));
    assert!(state.has_pipelines());
    assert!(state.disconnect("enrich"));
    assert!(!state.has_pipelines());
    assert_eq!(state.next_event_id(), 1);
    assert_eq!(state.next_event_id(), 2);
}

#[test]
fn gbq_connect_without_schema_keeps_state() {
    let mut sink = GbqSink::new(gbq_config());
    assert_eq!(
        sink.connected("streams/1".to_string(), None).err(),
        Some(GbqError::SchemaMissing)
    );
    assert_eq!(
        sink.append_request(&vec![]).err(),
        Some(GbqError::ClientNotConnected)
    );
}
