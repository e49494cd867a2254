//! What sources hand to the runtime: replies to pulls and event provenance.
use vstd::prelude::*;
use vstd::string::StringExecFns;

verus! {

/// The stream of sources that have just one.
pub const DEFAULT_STREAM_ID: u64 = 0;

/// Where an event came from.
#[derive(Debug)]
pub struct EventOriginUri {
    pub scheme: String,
    pub host: String,
    pub port: Option<u16>,
    pub path: Vec<String>,
}

/// A source's answer to a pull.
#[derive(Debug)]
pub enum SourceReply {
    /// Raw event data on a stream.
    Data { data: Vec<u8>, stream: u64 },
    /// The stream ended.
    EndStream { stream: u64 },
    /// The source has nothing more to give.
    Finished,
}

/// Hands out stream ids of one listener: 1, 2, 3 and so on, never one twice.
#[derive(Debug)]
pub struct StreamIdGen {
    next: u64,
}

impl StreamIdGen {
    /// The id the next call hands out.
    pub closed spec fn spec_next(&self) -> u64 {
        self.next
    }

    pub fn new() -> (r: StreamIdGen)
        ensures
            r.spec_next() == 1,
    {
        StreamIdGen { next: 1 }
    }

    /// Whether another id can be handed out.
    pub fn has_next(&self) -> (r: bool)
        ensures
            r == (self.spec_next() < u64::MAX),
    {
        self.next < u64::MAX
    }

    /// A fresh id: larger than every id handed out before.
    pub fn next_stream_id(&mut self) -> (r: u64)
        requires
            old(self).spec_next() < u64::MAX,
        ensures
            r == old(self).spec_next(),
            final(self).spec_next() == r + 1,
    {
        let id = self.next;
        self.next = self.next + 1;
        id
    }
}

/// The text of a decimal digit.
pub open spec fn digit_text(d: u64) -> Seq<char> {
    if d == 0 {
        "0"@
    } else if d == 1 {
        "1"@
    } else if d == 2 {
        "2"@
    } else if d == 3 {
        "3"@
    } else if d == 4 {
        "4"@
    } else if d == 5 {
        "5"@
    } else if d == 6 {
        "6"@
    } else if d == 7 {
        "7"@
    } else if d == 8 {
        "8"@
    } else {
        "9"@
    }
}

/// `n` in decimal, without leading zeros.
pub open spec fn decimal_text(n: u64) -> Seq<char>
    decreases n,
{
    if n < 10 {
        digit_text(n)
    } else {
        decimal_text(n / 10) + digit_text(n % 10)
    }
}

fn digit(d: u64) -> (r: &'static str)
    requires
        d < 10,
    ensures
        r@ == digit_text(d),
{
    if d == 0 {
        "0"
    } else if d == 1 {
        "1"
    } else if d == 2 {
        "2"
    } else if d == 3 {
        "3"
    } else if d == 4 {
        "4"
    } else if d == 5 {
        "5"
    } else if d == 6 {
        "6"
    } else if d == 7 {
        "7"
    } else if d == 8 {
        "8"
    } else {
        "9"
    }
}

/// Writes `n` in decimal.
pub fn decimal(n: u64) -> (r: String)
    ensures
        r@ == decimal_text(n),
    decreases n,
{
    if n < 10 {
        digit(n).to_owned()
    } else {
        let mut s = decimal(n / 10);
        s.append(digit(n % 10));
        s
    }
}

} // verus!
