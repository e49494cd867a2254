//! The decisions of the table-writer sink: which rows to send where, and
//! what the service's answer means for the event.
use vstd::prelude::*;
use crate::value::Value;
use crate::cb::{SinkReply, SinkAck, CbAction};
use crate::protobuf::{
    JsonToProtobufMapping, MappingError, TableFieldSchema, Descriptor, entries_encoding, mismatch,
    Expected, schema_fits, schema_fits_check, maps_fields,
};

verus! {

/// Configuration of the table writer.
#[derive(Debug)]
pub struct GbqConfig {
    pub table_id: String,
    /// Nanoseconds allowed for connecting.
    pub connect_timeout: u64,
    /// Nanoseconds allowed for each request and its first response.
    pub request_timeout: u64,
}

/// Why an event could not be written.
#[derive(PartialEq, Eq, Structural, Clone, Copy, Debug)]
pub enum GbqError {
    /// The client is not connected.
    ClientNotConnected,
    /// The write stream is not available.
    WriteStreamNotAvailable,
    /// The mapping is not available.
    MappingNotAvailable,
    /// A row did not fit the table.
    Mapping(MappingError),
    /// The write stream came without a table schema.
    SchemaMissing,
    /// The table schema maps more columns than field numbers can count.
    SchemaTooLarge,
}

/// Rows to append to a write stream, with the descriptor of their message.
#[derive(Debug)]
pub struct AppendRequest<'a> {
    pub write_stream: String,
    pub rows: Vec<Vec<u8>>,
    /// The writer schema sent along with the rows.
    pub descriptor: &'a Descriptor,
}

/// What became of an append request.
#[derive(PartialEq, Eq, Structural, Clone, Copy, Debug)]
pub enum AppendOutcome {
    /// The request or its first response did not come in time.
    TimedOut,
    /// The service accepted the rows.
    Appended,
    /// The service refused the rows.
    Refused,
    /// The response stream ended without an answer.
    NoAnswer,
}

/// The encoding of one row: an object's entries, else a mismatch.
pub open spec fn row_encoding(m: JsonToProtobufMapping, v: Value) -> Result<Seq<u8>, MappingError> {
    match v {
        Value::Object(entries) => entries_encoding(entries@, m.columns()),
        _ => Err(mismatch(Expected::Object, v)),
    }
}

/// The encodings of all rows, or the first row's error.
pub open spec fn rows_encoding(m: JsonToProtobufMapping, vs: Seq<Value>) -> Result<Seq<Seq<u8>>, MappingError>
    decreases vs.len(),
{
    if vs.len() == 0 {
        Ok(seq![])
    } else {
        match rows_encoding(m, vs.drop_last()) {
            Err(e) => Err(e),
            Ok(rows) => match row_encoding(m, vs.last()) {
                Ok(r) => Ok(rows.push(r)),
                Err(e) => Err(e),
            },
        }
    }
}

/// The table-writer sink.
#[derive(Debug)]
pub struct GbqSink {
    config: GbqConfig,
    client_connected: bool,
    write_stream: Option<String>,
    mapping: Option<JsonToProtobufMapping>,
}

impl GbqSink {
    pub closed spec fn spec_request_timeout(&self) -> u64 {
        self.config.request_timeout
    }

    pub closed spec fn spec_client_connected(&self) -> bool {
        self.client_connected
    }

    pub closed spec fn spec_write_stream(&self) -> Option<Seq<char>> {
        match self.write_stream {
            Some(s) => Some(s@),
            None => None,
        }
    }

    pub closed spec fn spec_mapping(&self) -> Option<JsonToProtobufMapping> {
        self.mapping
    }

    /// The mapping, where there is one, has valid field numbers.
    pub open spec fn wf(&self) -> bool {
        self.spec_mapping() matches Some(m) ==> m.wf()
    }

    /// A sink that is not connected yet.
    pub fn new(config: GbqConfig) -> (r: GbqSink)
        ensures
            r.wf(),
            r.spec_request_timeout() == config.request_timeout,
            !r.spec_client_connected(),
            r.spec_write_stream() is None,
            r.spec_mapping() is None,
    {
        GbqSink { config, client_connected: false, write_stream: None, mapping: None }
    }

    /// The client is connected.
    pub fn set_client(&mut self)
        ensures
            final(self).spec_client_connected(),
            final(self).spec_write_stream() == old(self).spec_write_stream(),
            final(self).spec_mapping() == old(self).spec_mapping(),
    {
        self.client_connected = true;
    }

    /// The connect step's outcome: the service opened write stream `name`,
    /// whose table has columns `schema` if it sent them. Without a schema,
    /// or with one too large to number, the sink stays as it was.
    pub fn connected(&mut self, name: String, schema: Option<&Vec<TableFieldSchema>>) -> (r: Result<(), GbqError>)
        requires
            old(self).wf(),
        ensures
            final(self).wf(),
            match schema {
                None => r == Err::<(), GbqError>(GbqError::SchemaMissing),
                Some(cols) => if !schema_fits(cols@) {
                    r == Err::<(), GbqError>(GbqError::SchemaTooLarge)
                } else {
                    r is Ok
                },
            },
            r is Err ==> final(self).spec_client_connected() == old(self).spec_client_connected()
                && final(self).spec_write_stream() == old(self).spec_write_stream()
                && final(self).spec_mapping() == old(self).spec_mapping(),
            r is Ok ==> final(self).spec_client_connected() && final(self).spec_write_stream()
                == Some(name@) && (final(self).spec_mapping() matches Some(m) && maps_fields(
                schema->Some_0@,
                m.columns(),
            ) && crate::protobuf::describes("table"@, schema->Some_0@, m.spec_descriptor())),
    {
        match schema {
            None => Err(GbqError::SchemaMissing),
            Some(cols) => {
                if !schema_fits_check(cols) {
                    return Err(GbqError::SchemaTooLarge);
                }
                self.mapping = Some(JsonToProtobufMapping::new(cols));
                self.write_stream = Some(name);
                self.client_connected = true;
                Ok(())
            },
        }
    }

    /// The rows to append for an event's values: each value encoded as a
    /// row. The client, write stream and mapping must be there, checked in
    /// that order.
    pub fn append_request<'a>(&'a self, values: &Vec<Value>) -> (r: Result<AppendRequest<'a>, GbqError>)
        requires
            self.wf(),
        ensures
            !self.spec_client_connected() ==> r == Err::<AppendRequest, GbqError>(
                GbqError::ClientNotConnected,
            ),
            self.spec_client_connected() && self.spec_write_stream() is None ==> r == Err::<
                AppendRequest,
                GbqError,
            >(GbqError::WriteStreamNotAvailable),
            self.spec_client_connected() && self.spec_write_stream() is Some
                && self.spec_mapping() is None ==> r == Err::<AppendRequest, GbqError>(
                GbqError::MappingNotAvailable,
            ),
            self.spec_client_connected() && self.spec_write_stream() is Some
                && self.spec_mapping() is Some ==> match rows_encoding(
                self.spec_mapping()->Some_0,
                values@,
            ) {
                Ok(rows) => (r matches Ok(req) && Some(req.write_stream@)
                    == self.spec_write_stream() && req.rows@.map_values(|b: Vec<u8>| b@) == rows
                    && *req.descriptor == self.spec_mapping()->Some_0.spec_descriptor()),
                Err(e) => r == Err::<AppendRequest, GbqError>(GbqError::Mapping(e)),
            },
    {
        if !self.client_connected {
            return Err(GbqError::ClientNotConnected);
        }
        let write_stream = match &self.write_stream {
            Some(w) => w,
            None => {
                return Err(GbqError::WriteStreamNotAvailable);
            },
        };
        let mapping = match &self.mapping {
            Some(m) => m,
            None => {
                return Err(GbqError::MappingNotAvailable);
            },
        };
        let mut rows: Vec<Vec<u8>> = Vec::new();
        let mut i: usize = 0;
        assert(values@.take(0) =~= seq![]);
        assert(rows@.map_values(|b: Vec<u8>| b@) =~= seq![]);
        while i < values.len()
            invariant
                0 <= i <= values@.len(),
                mapping.wf(),
                self.client_connected,
                self.write_stream is Some,
                self.mapping == Some(*mapping),
                rows_encoding(*mapping, values@.take(i as int)) matches Ok(done) && rows@.map_values(
                    |b: Vec<u8>| b@,
                ) == done,
            decreases values@.len() - i,
        {
            proof {
                assert(values@.take(i + 1).drop_last() =~= values@.take(i as int));
                assert(values@.take(i + 1).last() == values@[i as int]);
            }
            let ghost before = rows@;
            match mapping.map(&values[i]) {
                Ok(row) => {
                    rows.push(row);
                    assert(rows@.map_values(|b: Vec<u8>| b@) =~= before.map_values(
                        |b: Vec<u8>| b@,
                    ).push(rows@.last()@));
                },
                Err(e) => {
                    proof {
                        lemma_rows_error_sticks(*mapping, values@, i + 1, values@.len() as int, e);
                        assert(values@.take(values@.len() as int) =~= values@);
                    }
                    return Err(GbqError::Mapping(e));
                },
            }
            i = i + 1;
        }
        assert(values@.take(values@.len() as int) =~= values@);
        Ok(AppendRequest { write_stream: write_stream.clone(), rows, descriptor: mapping.descriptor() })
    }

    /// The reply to an event from the outcome of its append request, and
    /// whether the connection is to be reported lost.
    pub fn reply_for(outcome: AppendOutcome) -> (r: (SinkReply, bool))
        ensures
            r == match outcome {
                AppendOutcome::TimedOut => (
                    SinkReply { ack: SinkAck::Fail, cb: CbAction::Unchanged },
                    true,
                ),
                AppendOutcome::Appended => (
                    SinkReply { ack: SinkAck::Ack, cb: CbAction::Unchanged },
                    false,
                ),
                AppendOutcome::Refused => (
                    SinkReply { ack: SinkAck::Fail, cb: CbAction::Unchanged },
                    false,
                ),
                AppendOutcome::NoAnswer => (SinkReply::spec_none(), false),
            },
    {
        match outcome {
            AppendOutcome::TimedOut => (SinkReply { ack: SinkAck::Fail, cb: CbAction::Unchanged }, true),
            AppendOutcome::Appended => (SinkReply { ack: SinkAck::Ack, cb: CbAction::Unchanged }, false),
            AppendOutcome::Refused => (SinkReply { ack: SinkAck::Fail, cb: CbAction::Unchanged }, false),
            AppendOutcome::NoAnswer => (SinkReply::none(), false),
        }
    }

    /// The reply to an event whose request could not be built. A row that
    /// does not fit the table is the event's own failure: it is failed,
    /// and the connection is not reported lost. The other errors are the
    /// connector's and go up to the runtime: no reply.
    pub fn reply_for_error(e: GbqError) -> (r: Option<(SinkReply, bool)>)
        ensures
            e is Mapping ==> r == Some((SinkReply { ack: SinkAck::Fail, cb: CbAction::Unchanged }, false)),
            !(e is Mapping) ==> r is None,
    {
        match e {
            GbqError::Mapping(_) => Some((SinkReply { ack: SinkAck::Fail, cb: CbAction::Unchanged }, false)),
            _ => None,
        }
    }

    /// Nanoseconds allowed per request.
    pub fn request_timeout(&self) -> (r: u64)
        ensures
            r == self.spec_request_timeout(),
    {
        self.config.request_timeout
    }

    /// Replies are sent by this sink itself.
    pub fn auto_ack(&self) -> (r: bool)
        ensures
            !r,
    {
        false
    }
}

proof fn lemma_rows_error_sticks(
    m: JsonToProtobufMapping,
    vs: Seq<Value>,
    i: int,
    n: int,
    e: MappingError,
)
    requires
        0 <= i <= n <= vs.len(),
        rows_encoding(m, vs.take(i)) == Err::<Seq<Seq<u8>>, MappingError>(e),
    ensures
        rows_encoding(m, vs.take(n)) == Err::<Seq<Seq<u8>>, MappingError>(e),
    decreases n - i,
{
    if i < n {
        assert(vs.take(i + 1).drop_last() =~= vs.take(i));
        lemma_rows_error_sticks(m, vs, i + 1, n, e);
    }
}

} // verus!
