//! The Kafka onramp: its configuration, and the consumer settings and
//! subscription decisions made from it.
use vstd::prelude::*;
use vstd::string::StringExecFns;
use crate::value::texts;
use crate::http::header_texts;

verus! {

/// Configuration of the Kafka onramp.
#[derive(Debug)]
pub struct Config {
    /// Consumer group to register with.
    pub group_id: String,
    /// Topics to subscribe to.
    pub topics: Vec<String>,
    /// Bootstrap brokers.
    pub brokers: Vec<String>,
    /// Wait for each event to be acknowledged before fetching the next.
    pub sync: bool,
    /// Further consumer settings, applied after the defaults.
    pub rdkafka_options: Option<Vec<(String, String)>>,
}

/// The Kafka onramp.
#[derive(Debug)]
pub struct Kafka {
    pub config: Config,
}

/// Errors of creating the onramp.
#[derive(PartialEq, Eq, Structural, Clone, Copy, Debug)]
pub enum KafkaError {
    /// The onramp was given no configuration.
    MissingConfig,
}

/// The consumer context: it reports offset commits.
#[derive(Debug)]
pub struct LoggingConsumerContext;

/// `parts` joined by `sep`.
pub open spec fn joined(parts: Seq<Seq<char>>, sep: Seq<char>) -> Seq<char>
    decreases parts.len(),
{
    if parts.len() == 0 {
        seq![]
    } else if parts.len() == 1 {
        parts[0]
    } else {
        joined(parts.drop_last(), sep) + sep + parts.last()
    }
}

/// Joins `parts` with `sep` between each two.
pub fn join(parts: &Vec<String>, sep: &str) -> (r: String)
    ensures
        r@ == joined(texts(parts@), sep@),
{
    let mut out = String::new();
    let mut i: usize = 0;
    while i < parts.len()
        invariant
            0 <= i <= parts@.len(),
            out@ == joined(texts(parts@.take(i as int)), sep@),
        decreases parts@.len() - i,
    {
        proof {
            assert(texts(parts@.take(i + 1)).drop_last() =~= texts(parts@.take(i as int)));
            assert(texts(parts@.take(i + 1)).last() == parts@[i as int]@);
        }
        if i > 0 {
            out.append(sep);
        } else {
            assert(texts(parts@.take(0)) =~= seq![]);
            assert(texts(parts@.take(1))[0] == parts@[0]@);
        }
        out.append(parts[i].as_str());
        i = i + 1;
    }
    assert(parts@.take(parts@.len() as int) =~= parts@);
    out
}

/// The host name to use where none is known.
pub open spec fn fallback_host() -> Seq<char> {
    "tremor-host.local"@
}

/// The consumer settings, in the order they are applied; a later setting
/// of a key overrides an earlier one.
pub open spec fn settings_of(c: Config, host: Seq<char>) -> Seq<(Seq<char>, Seq<char>)> {
    seq![
        ("group.id"@, c.group_id@),
        ("client.id"@, "tremor-"@ + host + "-0"@),
        ("bootstrap.servers"@, joined(texts(c.brokers@), ","@)),
        ("enable.partition.eof"@, "false"@),
        ("session.timeout.ms"@, "6000"@),
        ("enable.auto.commit"@, "true"@),
        ("auto.commit.interval.ms"@, "5000"@),
        ("enable.auto.offset.store"@, "true"@),
    ] + match c.rdkafka_options {
        Some(opts) => header_texts(opts@),
        None => seq![],
    }
}

/// What the metadata of a topic says of subscribing to it.
#[derive(Debug)]
pub enum TopicCheck {
    /// The topic exists: subscribe.
    Subscribe,
    /// The topic reported this error: do not subscribe.
    TopicError(String),
    /// The metadata did not hold exactly one topic: do not subscribe.
    Unknown,
}

/// Decides on a topic from the errors of the topics its metadata lists.
pub fn topic_check(errors: &Vec<Option<String>>) -> (r: TopicCheck)
    ensures
        errors@.len() == 1 && errors@[0] is None ==> r is Subscribe,
        errors@.len() == 1 && errors@[0] is Some ==> (r matches TopicCheck::TopicError(x) && x@
            == errors@[0]->Some_0@),
        errors@.len() != 1 ==> r is Unknown,
{
    if errors.len() == 1 {
        match &errors[0] {
            None => TopicCheck::Subscribe,
            Some(e) => TopicCheck::TopicError(e.clone()),
        }
    } else {
        TopicCheck::Unknown
    }
}

fn setting(key: &str, value: String) -> (r: (String, String))
    ensures
        r.0@ == key@,
        r.1@ == value@,
{
    (key.to_owned(), value)
}

impl Kafka {
    /// The onramp for a configuration; one must be given.
    pub fn from_config(config: Option<Config>) -> (r: Result<Kafka, KafkaError>)
        ensures
            match config {
                Some(c) => (r matches Ok(k) && k.config == c),
                None => r == Err::<Kafka, KafkaError>(KafkaError::MissingConfig),
            },
    {
        match config {
            Some(config) => Ok(Kafka { config }),
            None => Err(KafkaError::MissingConfig),
        }
    }

    /// Events are decoded as JSON unless configured otherwise.
    pub fn default_codec(&self) -> (r: &'static str)
        ensures
            r@ == "json"@,
    {
        "json"
    }

    /// The consumer settings for a consumer on host `hostname`, or on
    /// `tremor-host.local` where the host name is unknown.
    pub fn client_settings(&self, hostname: Option<String>) -> (r: Vec<(String, String)>)
        ensures
            header_texts(r@) == settings_of(
                self.config,
                match hostname {
                    Some(h) => h@,
                    None => fallback_host(),
                },
            ),
    {
        let host = match hostname {
            Some(h) => h,
            None => "tremor-host.local".to_owned(),
        };
        let mut client_id = "tremor-".to_owned();
        client_id.append(host.as_str());
        client_id.append("-0");
        let mut out: Vec<(String, String)> = Vec::new();
        out.push(setting("group.id", self.config.group_id.clone()));
        out.push(setting("client.id", client_id));
        out.push(setting("bootstrap.servers", join(&self.config.brokers, ",")));
        out.push(setting("enable.partition.eof", "false".to_owned()));
        out.push(setting("session.timeout.ms", "6000".to_owned()));
        out.push(setting("enable.auto.commit", "true".to_owned()));
        out.push(setting("auto.commit.interval.ms", "5000".to_owned()));
        out.push(setting("enable.auto.offset.store", "true".to_owned()));
        let ghost base = out@;
        match &self.config.rdkafka_options {
            Some(opts) => {
                let mut i: usize = 0;
                while i < opts.len()
                    invariant
                        0 <= i <= opts@.len(),
                        out@.len() == base.len() + i,
                        forall|k: int|
                            0 <= k < i ==> (#[trigger] out@[base.len() + k]).0@ == opts@[k].0@
                                && out@[base.len() + k].1@ == opts@[k].1@,
                        forall|k: int| 0 <= k < base.len() ==> #[trigger] out@[k] == base[k],
                    decreases opts@.len() - i,
                {
                    let ghost before = out@;
                    out.push((opts[i].0.clone(), opts[i].1.clone()));
                    assert(out@[base.len() + i] == (opts@[i as int].0, opts@[i as int].1));
                    i = i + 1;
                }
                let ghost lhs = header_texts(out@);
                let ghost rhs = header_texts(base) + header_texts(opts@);
                assert forall|k: int| 0 <= k < lhs.len() implies lhs[k] == rhs[k] by {
                    if k < base.len() {
                        assert(out@[k] == base[k]);
                    } else {
                        let j = k - base.len();
                        assert(out@[base.len() + j].0@ == opts@[j].0@);
                    }
                }
                assert(lhs =~= rhs);
            },
            None => {
                assert(header_texts(out@) =~= header_texts(base) + seq![]);
            },
        }
        assert(header_texts(base) =~= seq![
            ("group.id"@, self.config.group_id@),
            ("client.id"@, "tremor-"@ + host@ + "-0"@),
            ("bootstrap.servers"@, joined(texts(self.config.brokers@), ","@)),
            ("enable.partition.eof"@, "false"@),
            ("session.timeout.ms"@, "6000"@),
            ("enable.auto.commit"@, "true"@),
            ("auto.commit.interval.ms"@, "5000"@),
            ("enable.auto.offset.store"@, "true"@),
        ]);
        out
    }
}

/// `ids` without those equal to `id`, in order.
pub open spec fn retained(ids: Seq<Seq<char>>, id: Seq<char>) -> Seq<Seq<char>>
    decreases ids.len(),
{
    if ids.len() == 0 {
        seq![]
    } else if ids.last() == id {
        retained(ids.drop_last(), id)
    } else {
        retained(ids.drop_last(), id).push(ids.last())
    }
}

/// The pipelines an onramp feeds, and the number of the last event it sent.
#[derive(Debug)]
pub struct OnrampState {
    pipelines: Vec<String>,
    last_id: u64,
}

impl OnrampState {
    pub closed spec fn spec_pipelines(&self) -> Seq<Seq<char>> {
        texts(self.pipelines@)
    }

    pub closed spec fn spec_last_id(&self) -> u64 {
        self.last_id
    }

    /// No pipeline yet, no event sent.
    pub fn new() -> (r: OnrampState)
        ensures
            r.spec_pipelines().len() == 0,
            r.spec_last_id() == 0,
    {
        let pipelines: Vec<String> = Vec::new();
        assert(texts(pipelines@) =~= seq![]);
        OnrampState { pipelines, last_id: 0 }
    }

    /// Events are fetched only while some pipeline is connected.
    pub fn has_pipelines(&self) -> (r: bool)
        ensures
            r == (self.spec_pipelines().len() > 0),
    {
        self.pipelines.len() > 0
    }

    /// Pipelines `ps` connect.
    pub fn connect(&mut self, ps: Vec<String>)
        ensures
            final(self).spec_pipelines() == old(self).spec_pipelines() + texts(ps@),
            final(self).spec_last_id() == old(self).spec_last_id(),
    {
        let mut ps = ps;
        let ghost added = ps@;
        self.pipelines.append(&mut ps);
        assert(texts(self.pipelines@) =~= texts(old(self).pipelines@) + texts(added));
    }

    /// Pipeline `id` disconnects; true when none is left, and the onramp
    /// stops.
    pub fn disconnect(&mut self, id: &str) -> (r: bool)
        ensures
            final(self).spec_pipelines() == retained(old(self).spec_pipelines(), id@),
            final(self).spec_last_id() == old(self).spec_last_id(),
            r == (final(self).spec_pipelines().len() == 0),
    {
        let mut kept: Vec<String> = Vec::new();
        let mut i: usize = 0;
        assert(texts(kept@) =~= seq![]);
        assert(texts(self.pipelines@).take(0) =~= seq![]);
        while i < self.pipelines.len()
            invariant
                0 <= i <= self.pipelines@.len(),
                self.pipelines == old(self).pipelines,
                self.last_id == old(self).last_id,
                texts(kept@) == retained(texts(self.pipelines@).take(i as int), id@),
            decreases self.pipelines@.len() - i,
        {
            proof {
                let t = texts(self.pipelines@);
                assert(t.take(i + 1).drop_last() =~= t.take(i as int));
                assert(t.take(i + 1).last() == self.pipelines@[i as int]@);
            }
            if !crate::value::same_text(self.pipelines[i].as_str(), id) {
                let ghost before = kept@;
                kept.push(self.pipelines[i].clone());
                assert(texts(kept@) =~= texts(before).push(self.pipelines@[i as int]@));
            }
            i = i + 1;
        }
        assert(texts(self.pipelines@).take(self.pipelines@.len() as int) =~= texts(
            self.pipelines@,
        ));
        self.pipelines = kept;
        self.pipelines.len() == 0
    }

    /// Numbers the next event sent: 1, 2, 3 and so on.
    pub fn next_event_id(&mut self) -> (r: u64)
        requires
            old(self).spec_last_id() < u64::MAX,
        ensures
            r == old(self).spec_last_id() + 1,
            final(self).spec_last_id() == r,
            final(self).spec_pipelines() == old(self).spec_pipelines(),
    {
        self.last_id = self.last_id + 1;
        self.last_id
    }
}

} // verus!
