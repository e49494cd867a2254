//! The ClickHouse connector: a sink that accepts structured events and
//! leaves the ack to the runtime.
use vstd::prelude::*;
use crate::cb::SinkReply;
use crate::connector::CodecReq;

verus! {

/// The ClickHouse connector.
#[derive(Debug)]
pub struct Clickhouse {}

impl Clickhouse {
    /// Events reach the sink as structured values.
    pub fn codec_requirements(&self) -> (r: CodecReq)
        ensures
            r == CodecReq::Structured,
    {
        CodecReq::Structured
    }

    /// The connector has a sink and no source.
    pub fn create_sink(&self) -> (r: ClickhouseSink) {
        ClickhouseSink
    }
}

/// The sink of the ClickHouse connector.
#[derive(Debug)]
pub struct ClickhouseSink;

impl ClickhouseSink {
    /// Takes an event and replies nothing itself.
    pub fn on_event(&self) -> (r: SinkReply)
        ensures
            r == SinkReply::spec_none(),
    {
        SinkReply::none()
    }

    /// The runtime acks each event.
    pub fn auto_ack(&self) -> (r: bool)
        ensures
            r,
    {
        true
    }
}

} // verus!
