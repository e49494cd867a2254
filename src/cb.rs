//! The circuit-breaker test connector. Its source emits one event per line
//! of a file and checks that every event is acked or failed before a
//! deadline; its sink answers each event with the ack, fail or circuit
//! breaker commands the event carries.
use vstd::prelude::*;
use crate::value::{Value, same_text, texts, string_list};
use crate::config::{CbConfig, ConfigError, ConfigErrorKind};
use crate::event::{EventOriginUri, SourceReply, DEFAULT_STREAM_ID};
use vstd::utf8::encode_utf8;

verus! {

/// The ack part of a sink's reply.
#[derive(PartialEq, Eq, Structural, Clone, Copy, Debug)]
pub enum SinkAck {
    Ack,
    Fail,
    /// No reply now; one may follow later.
    Deferred,
}

/// The circuit breaker part of a sink's reply.
#[derive(PartialEq, Eq, Structural, Clone, Copy, Debug)]
pub enum CbAction {
    /// No circuit breaker signal.
    Unchanged,
    /// Open the circuit: stop producing.
    Trigger,
    /// Close the circuit: resume.
    Restore,
}

/// A sink's answer to one event.
#[derive(PartialEq, Eq, Structural, Clone, Copy, Debug)]
pub struct SinkReply {
    pub ack: SinkAck,
    pub cb: CbAction,
}

impl SinkReply {
    pub open spec fn spec_none() -> SinkReply {
        SinkReply { ack: SinkAck::Deferred, cb: CbAction::Unchanged }
    }

    /// Neither ack nor circuit breaker signal.
    pub fn none() -> (r: SinkReply)
        ensures
            r == Self::spec_none(),
    {
        SinkReply { ack: SinkAck::Deferred, cb: CbAction::Unchanged }
    }
}

/// The reply that a list of commands asks for: `ack` before `fail`, and
/// `close` or `trigger` before `open` or `restore`.
pub open spec fn reply_for_commands(cmds: Seq<Seq<char>>) -> SinkReply {
    SinkReply {
        ack: if cmds.contains("ack"@) {
            SinkAck::Ack
        } else if cmds.contains("fail"@) {
            SinkAck::Fail
        } else {
            SinkAck::Deferred
        },
        cb: if cmds.contains("close"@) || cmds.contains("trigger"@) {
            CbAction::Trigger
        } else if cmds.contains("open"@) || cmds.contains("restore"@) {
            CbAction::Restore
        } else {
            CbAction::Unchanged
        },
    }
}

/// Whether `cmds` holds the command `c`.
pub fn has_command(cmds: &Vec<String>, c: &str) -> (r: bool)
    ensures
        r == texts(cmds@).contains(c@),
{
    let mut i: usize = 0;
    while i < cmds.len()
        invariant
            0 <= i <= cmds@.len(),
            forall|k: int| 0 <= k < i ==> (#[trigger] cmds@[k])@ != c@,
        decreases cmds@.len() - i,
    {
        if same_text(cmds[i].as_str(), c) {
            assert(texts(cmds@)[i as int] == c@);
            return true;
        }
        i = i + 1;
    }
    assert forall|k: int| 0 <= k < texts(cmds@).len() implies texts(cmds@)[k] != c@ by {
        assert(texts(cmds@)[k] == cmds@[k]@);
    }
    false
}

/// The reply for a list of commands.
pub fn reply_for(cmds: &Vec<String>) -> (r: SinkReply)
    ensures
        r == reply_for_commands(texts(cmds@)),
{
    let ack = if has_command(cmds, "ack") {
        SinkAck::Ack
    } else if has_command(cmds, "fail") {
        SinkAck::Fail
    } else {
        SinkAck::Deferred
    };
    let cb = if has_command(cmds, "close") || has_command(cmds, "trigger") {
        CbAction::Trigger
    } else if has_command(cmds, "open") || has_command(cmds, "restore") {
        CbAction::Restore
    } else {
        CbAction::Unchanged
    };
    SinkReply { ack, cb }
}

/// The `cb` field of an event: from its metadata, else from its payload.
pub open spec fn cb_field(payload: Value, meta: Value) -> Option<Value> {
    match meta.lookup("cb"@) {
        Some(v) => Some(v),
        None => payload.lookup("cb"@),
    }
}

/// The reply to a (possibly batched) event, given as payload and metadata
/// pairs: the first pair that carries a `cb` field decides.
pub open spec fn event_reply(pairs: Seq<(Value, Value)>) -> SinkReply
    decreases pairs.len(),
{
    if pairs.len() == 0 {
        SinkReply::spec_none()
    } else {
        match cb_field(pairs[0].0, pairs[0].1) {
            Some(cb) => reply_for_commands(string_list(cb)),
            None => event_reply(pairs.drop_first()),
        }
    }
}

/// The sink of the cb connector.
#[derive(Debug)]
pub struct CbSink {}

impl CbSink {
    /// Answers an event, given as its payload and metadata pairs.
    pub fn on_event(&self, event: &Vec<(Value, Value)>) -> (r: SinkReply)
        ensures
            r == event_reply(event@),
    {
        assert(event@.subrange(0, event@.len() as int) =~= event@);
        let mut i: usize = 0;
        while i < event.len()
            invariant
                0 <= i <= event@.len(),
                event_reply(event@) == event_reply(event@.subrange(i as int, event@.len() as int)),
            decreases event@.len() - i,
        {
            let ghost rest = event@.subrange(i as int, event@.len() as int);
            assert(rest.drop_first() =~= event@.subrange(i + 1, event@.len() as int));
            assert(rest[0] == event@[i as int]);
            let (value, meta) = &event[i];
            let cb = match meta.get("cb") {
                Some(v) => Some(v),
                None => value.get("cb"),
            };
            match cb {
                Some(cb) => {
                    let cmds = cb.strings();
                    return reply_for(&cmds);
                },
                None => {},
            }
            i = i + 1;
        }
        SinkReply::none()
    }

    /// The commands decide the ack; none is made up.
    pub fn auto_ack(&self) -> (r: bool)
        ensures
            !r,
    {
        false
    }
}

/// The larger of two optional ids; an id beats none.
pub open spec fn opt_max(a: Option<u64>, b: Option<u64>) -> Option<u64> {
    match (a, b) {
        (None, x) => x,
        (x, None) => x,
        (Some(x), Some(y)) => Some(
            if x >= y {
                x
            } else {
                y
            },
        ),
    }
}

/// The largest id in `s`.
pub open spec fn seq_max(s: Seq<u64>) -> Option<u64>
    decreases s.len(),
{
    if s.len() == 0 {
        None
    } else {
        opt_max(seq_max(s.drop_last()), Some(s.last()))
    }
}

fn max_of(s: &Vec<u64>) -> (r: Option<u64>)
    ensures
        r == seq_max(s@),
{
    let mut best: Option<u64> = None;
    let mut i: usize = 0;
    while i < s.len()
        invariant
            0 <= i <= s@.len(),
            best == seq_max(s@.take(i as int)),
        decreases s@.len() - i,
    {
        proof {
            assert(s@.take(i + 1).drop_last() =~= s@.take(i as int));
            assert(s@.take(i + 1).last() == s@[i as int]);
        }
        let x = s[i];
        best = match best {
            None => Some(x),
            Some(b) => Some(
                if b >= x {
                    b
                } else {
                    x
                },
            ),
        };
        i = i + 1;
    }
    assert(s@.take(s@.len() as int) =~= s@);
    best
}

/// The acks, fails and circuit breaker signals a source received.
#[derive(Debug)]
pub struct ReceivedCbs {
    /// Pull ids of acked events.
    pub ack: Vec<u64>,
    /// Pull ids of failed events.
    pub fail: Vec<u64>,
    /// How many times the circuit was opened.
    pub trigger: u64,
    /// How many times the circuit was closed again.
    pub restore: u64,
}

impl ReceivedCbs {
    pub fn new() -> (r: ReceivedCbs)
        ensures
            r.ack@.len() == 0,
            r.fail@.len() == 0,
            r.trigger == 0,
            r.restore == 0,
    {
        ReceivedCbs { ack: Vec::new(), fail: Vec::new(), trigger: 0, restore: 0 }
    }

    /// How many acks and fails arrived.
    pub fn count(&self) -> (r: usize)
        requires
            self.ack@.len() + self.fail@.len() <= usize::MAX,
        ensures
            r == self.ack@.len() + self.fail@.len(),
    {
        self.ack.len() + self.fail.len()
    }

    /// The largest id acked or failed.
    pub fn max(&self) -> (r: Option<u64>)
        ensures
            r == opt_max(seq_max(self.ack@), seq_max(self.fail@)),
    {
        let a = max_of(&self.ack);
        let f = max_of(&self.fail);
        match (a, f) {
            (None, x) => x,
            (x, None) => x,
            (Some(x), Some(y)) => Some(
                if x >= y {
                    x
                } else {
                    y
                },
            ),
        }
    }
}

/// The state of a cb source as its contracts see it.
pub struct CbState {
    /// Events emitted.
    pub num_sent: nat,
    /// The latest pull id emitted.
    pub last_sent: u64,
    pub acks: Seq<u64>,
    pub fails: Seq<u64>,
    pub triggers: u64,
    pub restores: u64,
    /// The end of the file was reported.
    pub finished: bool,
    pub expect_batched: bool,
    pub timeout: u64,
}

/// Whether every event that had to be answered was: with batching, the
/// largest answered id is the latest one sent; else there are as many
/// answers as events. Only a finished source can have received all.
pub open spec fn received_all(s: CbState) -> bool {
    &&& s.finished
    &&& if s.expect_batched {
        opt_max(seq_max(s.acks), seq_max(s.fails)) == Some(s.last_sent)
    } else {
        s.acks.len() + s.fails.len() == s.num_sent
    }
}

/// The state after emitting a line as event `pull_id`.
pub open spec fn line_step(s: CbState, pull_id: u64) -> CbState {
    CbState {
        num_sent: s.num_sent + 1,
        last_sent: if s.last_sent >= pull_id {
            s.last_sent
        } else {
            pull_id
        },
        ..s
    }
}

/// The state after reaching the end of the file.
pub open spec fn eof_step(s: CbState) -> CbState {
    CbState { finished: true, ..s }
}

pub open spec fn ack_step(s: CbState, pull_id: u64) -> CbState {
    CbState { acks: s.acks.push(pull_id), ..s }
}

pub open spec fn fail_step(s: CbState, pull_id: u64) -> CbState {
    CbState { fails: s.fails.push(pull_id), ..s }
}

/// What a pull at the end of the file asks of the runtime.
#[derive(PartialEq, Eq, Structural, Clone, Copy, Debug)]
pub enum EofStep {
    /// Report the end of the stream.
    EndStream,
    /// Wait `wait_ns` nanoseconds, then report and finish.
    Finish { wait_ns: u64 },
}

/// The outcome of a cb source's run.
#[derive(Debug)]
pub struct CbReport {
    pub all_received: bool,
    pub last_sent: u64,
    pub acks: Vec<u64>,
    pub fails: Vec<u64>,
}

impl CbReport {
    /// 0 when every required answer arrived, else 1.
    pub fn exit_code(&self) -> (r: i32)
        ensures
            r == if self.all_received {
                0i32
            } else {
                1i32
            },
    {
        if self.all_received {
            0
        } else {
            1
        }
    }
}

fn copy_ids(v: &Vec<u64>) -> (r: Vec<u64>)
    ensures
        r@ == v@,
{
    let mut out: Vec<u64> = Vec::new();
    let mut i: usize = 0;
    while i < v.len()
        invariant
            0 <= i <= v@.len(),
            out@ == v@.take(i as int),
        decreases v@.len() - i,
    {
        out.push(v[i]);
        assert(out@ =~= v@.take(i + 1));
        i = i + 1;
    }
    assert(v@.take(v@.len() as int) =~= v@);
    out
}

/// The source of the cb connector. The file is read by its caller, which
/// hands each line, or the end of the file, to a pull.
#[derive(Debug)]
pub struct CbSource {
    num_sent: usize,
    last_sent: u64,
    received_cbs: ReceivedCbs,
    finished: bool,
    timeout: u64,
    expect_batched: bool,
    origin_uri: EventOriginUri,
}

impl View for CbSource {
    type V = CbState;

    closed spec fn view(&self) -> CbState {
        CbState {
            num_sent: self.num_sent as nat,
            last_sent: self.last_sent,
            acks: self.received_cbs.ack@,
            fails: self.received_cbs.fail@,
            triggers: self.received_cbs.trigger,
            restores: self.received_cbs.restore,
            finished: self.finished,
            expect_batched: self.expect_batched,
            timeout: self.timeout,
        }
    }
}

impl CbSource {
    /// The answers received fit a count.
    pub open spec fn wf(&self) -> bool {
        self@.acks.len() + self@.fails.len() <= usize::MAX
    }

    pub closed spec fn spec_origin_host(&self) -> Seq<char> {
        self.origin_uri.host@
    }

    pub closed spec fn spec_origin_scheme(&self) -> Seq<char> {
        self.origin_uri.scheme@
    }

    /// The origin names no port and no path.
    pub closed spec fn spec_origin_bare(&self) -> bool {
        self.origin_uri.port is None && self.origin_uri.path@.len() == 0
    }

    /// A source for `config` on host `host`; the configuration must name a file.
    pub fn new(config: &CbConfig, host: String) -> (r: Result<CbSource, ConfigError>)
        ensures
            match r {
                Ok(s) => {
                    &&& config.path is Some
                    &&& s.wf()
                    &&& s@ == CbState {
                        num_sent: 0,
                        last_sent: 0,
                        acks: seq![],
                        fails: seq![],
                        triggers: 0,
                        restores: 0,
                        finished: false,
                        expect_batched: config.expect_batched,
                        timeout: config.timeout,
                    }
                    &&& s.spec_origin_host() == host@
                    &&& s.spec_origin_scheme() == "tremor-cb"@
                    &&& s.spec_origin_bare()
                },
                Err(e) => config.path is None && e.kind == ConfigErrorKind::MissingField && e.key@
                    == "path"@,
            },
    {
        match &config.path {
            Some(_) => {
                let received_cbs = ReceivedCbs::new();
                let s = CbSource {
                    num_sent: 0,
                    last_sent: 0,
                    received_cbs,
                    finished: false,
                    timeout: config.timeout,
                    expect_batched: config.expect_batched,
                    origin_uri: EventOriginUri {
                        scheme: "tremor-cb".to_owned(),
                        host,
                        port: None,
                        path: Vec::new(),
                    },
                };
                assert(s@.acks =~= seq![]);
                assert(s@.fails =~= seq![]);
                Ok(s)
            },
            None => Err(ConfigError { kind: ConfigErrorKind::MissingField, key: "path".to_owned() }),
        }
    }

    /// Where this source's events come from: scheme `tremor-cb` on its host.
    pub fn origin_uri(&self) -> (r: &EventOriginUri)
        ensures
            r.scheme@ == self.spec_origin_scheme(),
            r.host@ == self.spec_origin_host(),
            self.spec_origin_bare() ==> r.port is None && r.path@.len() == 0,
    {
        &self.origin_uri
    }

    /// Whether another line can be counted.
    pub fn can_pull(&self) -> (r: bool)
        ensures
            r == (self@.num_sent < usize::MAX),
    {
        self.num_sent < usize::MAX
    }

    /// Whether another ack or fail can be recorded.
    pub fn can_answer(&self) -> (r: bool)
        requires
            self.wf(),
        ensures
            r == (self@.acks.len() + self@.fails.len() < usize::MAX),
    {
        self.received_cbs.count() < usize::MAX
    }

    /// Whether another circuit opening can be counted.
    pub fn can_count_close(&self) -> (r: bool)
        ensures
            r == (self@.triggers < u64::MAX),
    {
        self.received_cbs.trigger < u64::MAX
    }

    /// Whether another circuit closing can be counted.
    pub fn can_count_open(&self) -> (r: bool)
        ensures
            r == (self@.restores < u64::MAX),
    {
        self.received_cbs.restore < u64::MAX
    }

    /// Whether every required ack or fail arrived.
    pub fn did_receive_all(&self) -> (r: bool)
        requires
            self.wf(),
        ensures
            r == received_all(self@),
    {
        let all_received = if self.expect_batched {
            match self.received_cbs.max() {
                Some(m) => m == self.last_sent,
                None => false,
            }
        } else {
            self.received_cbs.count() == self.num_sent
        };
        self.finished && all_received
    }

    /// Emits `line` as event `pull_id` on the default stream.
    pub fn pull_line(&mut self, pull_id: u64, line: String) -> (r: SourceReply)
        requires
            old(self)@.num_sent < usize::MAX,
            old(self).wf(),
        ensures
            final(self)@ == line_step(old(self)@, pull_id),
            final(self).wf(),
            final(self).spec_origin_host() == old(self).spec_origin_host(),
            final(self).spec_origin_scheme() == old(self).spec_origin_scheme(),
            final(self).spec_origin_bare() == old(self).spec_origin_bare(),
            r matches SourceReply::Data { data, stream } && data@ == encode_utf8(line@) && stream
                == DEFAULT_STREAM_ID,
    {
        self.num_sent = self.num_sent + 1;
        if self.last_sent < pull_id {
            self.last_sent = pull_id;
        }
        let data = vstd::slice::slice_to_vec(line.as_str().as_bytes());
        SourceReply::Data { data, stream: DEFAULT_STREAM_ID }
    }

    /// A pull after the last line. The first reports the end of the stream;
    /// later ones finish, after waiting out the timeout if answers are
    /// still missing.
    pub fn pull_eof(&mut self) -> (r: EofStep)
        requires
            old(self).wf(),
        ensures
            final(self).wf(),
            final(self).spec_origin_host() == old(self).spec_origin_host(),
            final(self).spec_origin_scheme() == old(self).spec_origin_scheme(),
            final(self).spec_origin_bare() == old(self).spec_origin_bare(),
            !old(self)@.finished ==> r == EofStep::EndStream && final(self)@ == eof_step(
                old(self)@,
            ),
            old(self)@.finished ==> final(self)@ == old(self)@ && r == (EofStep::Finish {
                wait_ns: if old(self)@.timeout > 0 && !received_all(old(self)@) {
                    old(self)@.timeout
                } else {
                    0
                },
            }),
    {
        if !self.finished {
            self.finished = true;
            EofStep::EndStream
        } else {
            let wait_ns = if self.timeout > 0 && !self.did_receive_all() {
                self.timeout
            } else {
                0
            };
            EofStep::Finish { wait_ns }
        }
    }

    /// The outcome so far.
    pub fn report(&self) -> (r: CbReport)
        requires
            self.wf(),
        ensures
            r.all_received == received_all(self@),
            r.last_sent == self@.last_sent,
            r.acks@ == self@.acks,
            r.fails@ == self@.fails,
    {
        CbReport {
            all_received: self.did_receive_all(),
            last_sent: self.last_sent,
            acks: copy_ids(&self.received_cbs.ack),
            fails: copy_ids(&self.received_cbs.fail),
        }
    }

    /// The circuit was opened.
    pub fn on_cb_close(&mut self)
        requires
            old(self)@.triggers < u64::MAX,
        ensures
            final(self)@ == close_step(old(self)@),
            final(self).spec_origin_host() == old(self).spec_origin_host(),
            final(self).spec_origin_scheme() == old(self).spec_origin_scheme(),
            final(self).spec_origin_bare() == old(self).spec_origin_bare(),
    {
        self.received_cbs.trigger = self.received_cbs.trigger + 1;
    }

    /// The circuit was closed again.
    pub fn on_cb_open(&mut self)
        requires
            old(self)@.restores < u64::MAX,
        ensures
            final(self)@ == open_step(old(self)@),
            final(self).spec_origin_host() == old(self).spec_origin_host(),
            final(self).spec_origin_scheme() == old(self).spec_origin_scheme(),
            final(self).spec_origin_bare() == old(self).spec_origin_bare(),
    {
        self.received_cbs.restore = self.received_cbs.restore + 1;
    }

    /// Event `pull_id` was acked.
    pub fn ack(&mut self, stream_id: u64, pull_id: u64)
        requires
            old(self)@.acks.len() + old(self)@.fails.len() < usize::MAX,
        ensures
            final(self)@ == ack_step(old(self)@, pull_id),
            final(self).wf(),
            final(self).spec_origin_host() == old(self).spec_origin_host(),
            final(self).spec_origin_scheme() == old(self).spec_origin_scheme(),
            final(self).spec_origin_bare() == old(self).spec_origin_bare(),
    {
        self.received_cbs.ack.push(pull_id);
    }

    /// Event `pull_id` failed.
    pub fn fail(&mut self, stream_id: u64, pull_id: u64)
        requires
            old(self)@.acks.len() + old(self)@.fails.len() < usize::MAX,
        ensures
            final(self)@ == fail_step(old(self)@, pull_id),
            final(self).wf(),
            final(self).spec_origin_host() == old(self).spec_origin_host(),
            final(self).spec_origin_scheme() == old(self).spec_origin_scheme(),
            final(self).spec_origin_bare() == old(self).spec_origin_bare(),
    {
        self.received_cbs.fail.push(pull_id);
    }

    /// Every event of this source asks for an ack or fail.
    pub fn is_transactional(&self) -> (r: bool)
        ensures
            r,
    {
        true
    }

    /// Answers arrive while pulls go on, not in between.
    pub fn asynchronous(&self) -> (r: bool)
        ensures
            !r,
    {
        false
    }
}

/// The state after emitting one event per id of `ids`, in order.
pub open spec fn lines_step(s: CbState, ids: Seq<u64>) -> CbState
    decreases ids.len(),
{
    if ids.len() == 0 {
        s
    } else {
        line_step(lines_step(s, ids.drop_last()), ids.last())
    }
}

/// The state after acking each id of `ids`, in order.
pub open spec fn acks_step(s: CbState, ids: Seq<u64>) -> CbState
    decreases ids.len(),
{
    if ids.len() == 0 {
        s
    } else {
        ack_step(acks_step(s, ids.drop_last()), ids.last())
    }
}

proof fn lemma_lines_step(s: CbState, ids: Seq<u64>)
    ensures
        lines_step(s, ids).num_sent == s.num_sent + ids.len(),
        lines_step(s, ids).acks == s.acks,
        lines_step(s, ids).fails == s.fails,
        lines_step(s, ids).finished == s.finished,
        lines_step(s, ids).expect_batched == s.expect_batched,
        Some(lines_step(s, ids).last_sent) == opt_max(Some(s.last_sent), seq_max(ids)),
    decreases ids.len(),
{
    if ids.len() > 0 {
        lemma_lines_step(s, ids.drop_last());
    }
}

proof fn lemma_acks_step(s: CbState, ids: Seq<u64>)
    ensures
        acks_step(s, ids).num_sent == s.num_sent,
        acks_step(s, ids).acks == s.acks + ids,
        acks_step(s, ids).fails == s.fails,
        acks_step(s, ids).finished == s.finished,
        acks_step(s, ids).expect_batched == s.expect_batched,
    decreases ids.len(),
{
    if ids.len() > 0 {
        lemma_acks_step(s, ids.drop_last());
        assert(s.acks + ids =~= (s.acks + ids.drop_last()).push(ids.last()));
    }
}

proof fn lemma_increasing_max(ids: Seq<u64>)
    requires
        ids.len() > 0,
        forall|i: int, j: int| 0 <= i < j < ids.len() ==> ids[i] < ids[j],
    ensures
        seq_max(ids) == Some(ids.last()),
    decreases ids.len(),
{
    if ids.len() > 1 {
        lemma_increasing_max(ids.drop_last());
        assert(ids.drop_last().last() == ids[ids.len() - 2]);
        assert(ids[ids.len() - 2] < ids[ids.len() - 1]);
    } else {
        assert(ids.drop_last().len() == 0);
        assert(seq_max(ids.drop_last()) is None);
    }
}

/// Ack completeness: when a source that does not batch has each of its
/// events acked once, it has received all it needs once the file is done,
/// and its report then gives exit code 0.
pub proof fn lemma_ack_completeness(s: CbState, ids: Seq<u64>)
    requires
        s.num_sent == 0,
        s.acks.len() == 0,
        s.fails.len() == 0,
        !s.expect_batched,
    ensures
        received_all(acks_step(eof_step(lines_step(s, ids)), ids)),
        acks_step(eof_step(lines_step(s, ids)), ids).acks == ids,
        acks_step(eof_step(lines_step(s, ids)), ids).num_sent == ids.len(),
{
    lemma_lines_step(s, ids);
    lemma_acks_step(eof_step(lines_step(s, ids)), ids);
    assert(s.acks + ids =~= ids);
}

/// Batched completeness: when a batching source emits events with
/// increasing pull ids, an ack of the latest one alone completes the run,
/// however many ids before it went unanswered.
pub proof fn lemma_batched_completeness(s: CbState, ids: Seq<u64>)
    requires
        s.last_sent == 0,
        s.acks.len() == 0,
        s.fails.len() == 0,
        s.expect_batched,
        ids.len() > 0,
        forall|i: int, j: int| 0 <= i < j < ids.len() ==> ids[i] < ids[j],
    ensures
        received_all(ack_step(eof_step(lines_step(s, ids)), ids.last())),
{
    lemma_lines_step(s, ids);
    lemma_increasing_max(ids);
    let done = ack_step(eof_step(lines_step(s, ids)), ids.last());
    assert(done.acks =~= seq![ids.last()]);
    assert(done.acks.drop_last() =~= seq![]);
    assert(seq_max(done.acks.drop_last()) is None);
    assert(seq_max(done.acks) == Some(ids.last()));
    assert(seq_max(done.fails) is None);
    assert(done.last_sent == ids.last());
}

/// How often `x` occurs in `s`.
pub open spec fn count_of(s: Seq<u64>, x: u64) -> nat
    decreases s.len(),
{
    if s.len() == 0 {
        0
    } else {
        count_of(s.drop_last(), x) + if s.last() == x {
            1nat
        } else {
            0nat
        }
    }
}

proof fn lemma_count_of_concat(a: Seq<u64>, b: Seq<u64>, x: u64)
    ensures
        count_of(a + b, x) == count_of(a, x) + count_of(b, x),
    decreases b.len(),
{
    if b.len() > 0 {
        lemma_count_of_concat(a, b.drop_last(), x);
        assert((a + b).drop_last() =~= a + b.drop_last());
    } else {
        assert(a + b =~= a);
    }
}

proof fn lemma_count_of_absent(s: Seq<u64>, x: u64)
    requires
        !s.contains(x),
    ensures
        count_of(s, x) == 0,
    decreases s.len(),
{
    if s.len() > 0 {
        assert(!s.drop_last().contains(x)) by {
            if s.drop_last().contains(x) {
                let i = choose|i: int| 0 <= i < s.drop_last().len() && s.drop_last()[i] == x;
                assert(s[i] == x);
            }
        }
        lemma_count_of_absent(s.drop_last(), x);
        assert(s[s.len() - 1] != x);
    }
}

/// One answer per event: acking or failing an event that had no answer
/// yet leaves its id exactly once among all answers, and the other list
/// as it was.
pub proof fn lemma_answer_once(s: CbState, pull_id: u64)
    requires
        !s.acks.contains(pull_id),
        !s.fails.contains(pull_id),
    ensures
        count_of(ack_step(s, pull_id).acks + ack_step(s, pull_id).fails, pull_id) == 1,
        ack_step(s, pull_id).fails == s.fails,
        count_of(fail_step(s, pull_id).acks + fail_step(s, pull_id).fails, pull_id) == 1,
        fail_step(s, pull_id).acks == s.acks,
{
    lemma_count_of_absent(s.acks, pull_id);
    lemma_count_of_absent(s.fails, pull_id);
    assert(s.acks.push(pull_id).drop_last() =~= s.acks);
    assert(s.fails.push(pull_id).drop_last() =~= s.fails);
    lemma_count_of_concat(s.acks.push(pull_id), s.fails, pull_id);
    lemma_count_of_concat(s.acks, s.fails.push(pull_id), pull_id);
}

/// The state after the circuit opens.
pub open spec fn close_step(s: CbState) -> CbState {
    CbState { triggers: (s.triggers + 1) as u64, ..s }
}

/// The state after the circuit closes again.
pub open spec fn open_step(s: CbState) -> CbState {
    CbState { restores: (s.restores + 1) as u64, ..s }
}

/// Circuit breaker balance: while every restore so far followed a
/// trigger, a trigger leaves one restore outstanding, and the matching
/// restore brings the counts level again.
pub proof fn lemma_cb_balance(s: CbState)
    requires
        s.restores <= s.triggers,
        s.triggers < u64::MAX,
    ensures
        close_step(s).restores < close_step(s).triggers,
        open_step(close_step(s)).restores <= open_step(close_step(s)).triggers,
        open_step(close_step(s)).triggers - open_step(close_step(s)).restores == s.triggers
            - s.restores,
{
}

} // verus!
