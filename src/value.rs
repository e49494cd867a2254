//! The structured value that events carry as payload and metadata.
use vstd::prelude::*;

verus! {

/// A structured event value.
#[derive(Debug)]
pub enum Value {
    Null,
    Bool(bool),
    I64(i64),
    U64(u64),
    /// A 64-bit floating point number, held as its IEEE-754 bit pattern.
    Float(u64),
    String(String),
    Bytes(Vec<u8>),
    Array(Vec<Value>),
    /// Key/value entries in insertion order.
    Object(Vec<(String, Value)>),
}

/// The kind of a [`Value`].
#[derive(PartialEq, Eq, Structural, Clone, Copy, Debug)]
pub enum ValueType {
    Null,
    Bool,
    I64,
    U64,
    Float,
    String,
    Bytes,
    Array,
    Object,
}

/// Index of the first entry whose key is `key`.
#[verifier::opaque]
pub open spec fn first_key_index(entries: Seq<(String, Value)>, key: Seq<char>) -> Option<int> {
    if exists|j: int|
        0 <= j < entries.len() && (#[trigger] entries[j]).0@ == key && forall|k: int|
            0 <= k < j ==> (#[trigger] entries[k]).0@ != key {
        Some(
            choose|j: int|
                0 <= j < entries.len() && (#[trigger] entries[j]).0@ == key && forall|k: int|
                    0 <= k < j ==> (#[trigger] entries[k]).0@ != key,
        )
    } else {
        None
    }
}

/// Whether two strings hold the same characters.
pub fn same_text(a: &str, b: &str) -> (r: bool)
    ensures
        r == (a@ == b@),
{
    let a_owned = a.to_owned();
    let b_owned = b.to_owned();
    a_owned == b_owned
}

/// Searches `entries` for `key` from the front.
pub fn find_entry(entries: &Vec<(String, Value)>, key: &str) -> (r: Option<usize>)
    ensures
        match r {
            Some(j) => j < entries@.len() && first_key_index(entries@, key@) == Some(j as int),
            None => first_key_index(entries@, key@).is_none(),
        },
{
    let mut i: usize = 0;
    while i < entries.len()
        invariant
            0 <= i <= entries@.len(),
            forall|k: int| 0 <= k < i ==> (#[trigger] entries@[k]).0@ != key@,
        decreases entries@.len() - i,
    {
        if same_text(entries[i].0.as_str(), key) {
            proof {
                lemma_first_key_found(entries@, key@, i as int);
            }
            return Some(i);
        }
        i = i + 1;
    }
    proof {
        reveal(first_key_index);
    }
    None
}

proof fn lemma_first_key_found(entries: Seq<(String, Value)>, key: Seq<char>, i: int)
    requires
        0 <= i < entries.len(),
        entries[i].0@ == key,
        forall|k: int| 0 <= k < i ==> (#[trigger] entries[k]).0@ != key,
    ensures
        first_key_index(entries, key) == Some(i),
{
    reveal(first_key_index);
    assert forall|j2: int|
        0 <= j2 < entries.len() && (#[trigger] entries[j2]).0@ == key && (forall|k: int|
            0 <= k < j2 ==> (#[trigger] entries[k]).0@ != key) implies j2 == i by {
        if j2 > i {
            assert(entries[i].0@ != key);
        }
    }
}

/// The texts of a sequence of strings.
pub open spec fn texts(v: Seq<String>) -> Seq<Seq<char>> {
    v.map_values(|s: String| s@)
}

/// The strings among `items`, in order.
pub open spec fn strings_of(items: Seq<Value>) -> Seq<Seq<char>>
    decreases items.len(),
{
    if items.len() == 0 {
        seq![]
    } else {
        strings_of(items.drop_last()) + match items.last() {
            Value::String(s) => seq![s@],
            _ => seq![],
        }
    }
}

/// The strings a value holds: itself if a string, the string items of an array.
pub open spec fn string_list(cb: Value) -> Seq<Seq<char>> {
    match cb {
        Value::Array(items) => strings_of(items@),
        Value::String(s) => seq![s@],
        _ => seq![],
    }
}


impl Value {
    /// The strings this value holds; array items that are not strings are ignored.
    pub fn strings(&self) -> (r: Vec<String>)
        ensures
            texts(r@) == string_list(*self),
    {
        match self {
            Value::Array(items) => {
                let mut out: Vec<String> = Vec::new();
                let mut i: usize = 0;
                while i < items.len()
                    invariant
                        0 <= i <= items@.len(),
                        texts(out@) == strings_of(items@.take(i as int)),
                    decreases items@.len() - i,
                {
                    let ghost before = out@;
                    proof {
                        assert(items@.take(i + 1).drop_last() =~= items@.take(i as int));
                        assert(items@.take(i + 1).last() == items@[i as int]);
                    }
                    match &items[i] {
                        Value::String(s) => {
                            out.push(s.clone());
                            assert(texts(out@) =~= texts(before) + seq![s@]);
                        },
                        _ => {
                            assert(texts(out@) =~= texts(before) + seq![]);
                        },
                    }
                    i = i + 1;
                }
                assert(items@.take(items@.len() as int) =~= items@);
                out
            },
            Value::String(s) => {
                let mut out: Vec<String> = Vec::new();
                out.push(s.clone());
                assert(texts(out@) =~= seq![s@]);
                out
            },
            _ => {
                let out: Vec<String> = Vec::new();
                assert(texts(out@) =~= seq![]);
                out
            },
        }
    }

    /// The kind of this value.
    pub open spec fn kind(&self) -> ValueType {
        match self {
            Value::Null => ValueType::Null,
            Value::Bool(_) => ValueType::Bool,
            Value::I64(_) => ValueType::I64,
            Value::U64(_) => ValueType::U64,
            Value::Float(_) => ValueType::Float,
            Value::String(_) => ValueType::String,
            Value::Bytes(_) => ValueType::Bytes,
            Value::Array(_) => ValueType::Array,
            Value::Object(_) => ValueType::Object,
        }
    }

    pub fn value_type(&self) -> (r: ValueType)
        ensures
            r == self.kind(),
    {
        match self {
            Value::Null => ValueType::Null,
            Value::Bool(_) => ValueType::Bool,
            Value::I64(_) => ValueType::I64,
            Value::U64(_) => ValueType::U64,
            Value::Float(_) => ValueType::Float,
            Value::String(_) => ValueType::String,
            Value::Bytes(_) => ValueType::Bytes,
            Value::Array(_) => ValueType::Array,
            Value::Object(_) => ValueType::Object,
        }
    }

    /// The value as a signed integer: signed integers, and unsigned ones that fit.
    pub open spec fn int_value(&self) -> Option<i64> {
        match self {
            Value::I64(i) => Some(*i),
            Value::U64(u) => if *u <= i64::MAX as u64 {
                Some(*u as i64)
            } else {
                None
            },
            _ => None,
        }
    }

    pub fn as_i64(&self) -> (r: Option<i64>)
        ensures
            r == self.int_value(),
    {
        match self {
            Value::I64(i) => Some(*i),
            Value::U64(u) => if *u <= i64::MAX as u64 {
                Some(*u as i64)
            } else {
                None
            },
            _ => None,
        }
    }

    /// The value as an unsigned integer: unsigned integers, and signed ones that are not negative.
    pub open spec fn uint_value(&self) -> Option<u64> {
        match self {
            Value::U64(u) => Some(*u),
            Value::I64(i) => if *i >= 0 {
                Some(*i as u64)
            } else {
                None
            },
            _ => None,
        }
    }

    pub fn as_u64(&self) -> (r: Option<u64>)
        ensures
            r == self.uint_value(),
    {
        match self {
            Value::U64(u) => Some(*u),
            Value::I64(i) => if *i >= 0 {
                Some(*i as u64)
            } else {
                None
            },
            _ => None,
        }
    }

    pub fn as_str(&self) -> (r: Option<&str>)
        ensures
            match self {
                Value::String(s) => r.is_some() && r.unwrap()@ == s@,
                _ => r.is_none(),
            },
    {
        match self {
            Value::String(s) => Some(s.as_str()),
            _ => None,
        }
    }

    /// The value stored under `key`, if this is an object holding it.
    pub open spec fn lookup(&self, key: Seq<char>) -> Option<Value> {
        match self {
            Value::Object(entries) => match first_key_index(entries@, key) {
                Some(j) => Some(entries@[j].1),
                None => None,
            },
            _ => None,
        }
    }

    pub fn get(&self, key: &str) -> (r: Option<&Value>)
        ensures
            r == (match self.lookup(key@) {
                Some(v) => Some(&v),
                None => None::<&Value>,
            }),
    {
        match self {
            Value::Object(entries) => match find_entry(entries, key) {
                Some(j) => Some(&entries[j].1),
                None => None,
            },
            _ => None,
        }
    }
}

} // verus!
