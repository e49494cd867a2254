//! Mapping of table schemas to protobuf descriptors, and encoding of event
//! values as protobuf rows of such a table.
use vstd::prelude::*;
use vstd::utf8::encode_utf8;
use vstd::string::StringExecFns;
use vstd::utf8::decode_utf8;
use vstd::arithmetic::div_mod::lemma_mod_breakdown;
use crate::value::{Value, ValueType};

verus! {

/// The smallest valid protobuf field number.
pub const MIN_TAG: u32 = 1;

/// The largest valid protobuf field number.
pub const MAX_TAG: u32 = 536870911;

/// The protobuf wire types that table rows use.
#[derive(PartialEq, Eq, Structural, Clone, Copy, Debug)]
pub enum WireType {
    Varint,
    SixtyFourBit,
    LengthDelimited,
}

impl WireType {
    pub open spec fn code(self) -> int {
        match self {
            WireType::Varint => 0,
            WireType::SixtyFourBit => 1,
            WireType::LengthDelimited => 2,
        }
    }
}

/// LEB128: seven bits per byte, least significant group first, the high bit
/// set on every byte but the last.
pub open spec fn varint_bytes(v: u64) -> Seq<u8>
    decreases v,
{
    if v < 128 {
        seq![v as u8]
    } else {
        seq![(v % 128 + 128) as u8] + varint_bytes(v / 128)
    }
}

/// The key that precedes a field: its number and wire type as one varint.
pub open spec fn key_bytes(tag: u32, wire: WireType) -> Seq<u8> {
    varint_bytes((tag * 8 + wire.code()) as u64)
}

/// The `n` low bytes of `v`, least significant first.
pub open spec fn le_bytes(v: u64, n: nat) -> Seq<u8>
    decreases n,
{
    if n == 0 {
        seq![]
    } else {
        seq![(v % 256) as u8] + le_bytes(v / 256, (n - 1) as nat)
    }
}

/// A length-delimited field: key, payload length, payload.
pub open spec fn length_delimited(tag: u32, payload: Seq<u8>) -> Seq<u8> {
    key_bytes(tag, WireType::LengthDelimited) + varint_bytes(payload.len() as u64) + payload
}

/// Relies on prost::encoding::encode_varint: appends the LEB128 encoding of `value`.
#[verifier::external_body]
fn put_varint(value: u64, buf: &mut Vec<u8>)
    ensures
        final(buf)@ == old(buf)@ + varint_bytes(value),
{
    prost::encoding::encode_varint(value, buf)
}

/// Relies on prost::encoding::encode_key: appends the varint of `tag << 3 | wire_type`.
#[verifier::external_body]
fn put_key(tag: u32, wire: WireType, buf: &mut Vec<u8>)
    requires
        MIN_TAG <= tag <= MAX_TAG,
    ensures
        final(buf)@ == old(buf)@ + key_bytes(tag, wire),
{
    let wire_type = match wire {
        WireType::Varint => prost::encoding::WireType::Varint,
        WireType::SixtyFourBit => prost::encoding::WireType::SixtyFourBit,
        WireType::LengthDelimited => prost::encoding::WireType::LengthDelimited,
    };
    prost::encoding::encode_key(tag, wire_type, buf)
}

/// Relies on prost::encoding::int64::encode: key, then the value's two's complement as a varint.
#[verifier::external_body]
fn put_int64(tag: u32, value: i64, buf: &mut Vec<u8>)
    requires
        MIN_TAG <= tag <= MAX_TAG,
    ensures
        final(buf)@ == old(buf)@ + key_bytes(tag, WireType::Varint) + varint_bytes(#[verifier::truncate] (value as u64)),
{
    prost::encoding::int64::encode(tag, &value, buf)
}

/// Relies on prost::encoding::bool::encode: key, then 1 or 0 as a varint.
#[verifier::external_body]
fn put_bool(tag: u32, value: bool, buf: &mut Vec<u8>)
    requires
        MIN_TAG <= tag <= MAX_TAG,
    ensures
        final(buf)@ == old(buf)@ + key_bytes(tag, WireType::Varint) + varint_bytes(
            if value {
                1u64
            } else {
                0u64
            },
        ),
{
    prost::encoding::bool::encode(tag, &value, buf)
}

/// Relies on prost::encoding::string::encode: key, byte length, UTF-8 bytes.
#[verifier::external_body]
fn put_string(tag: u32, value: &String, buf: &mut Vec<u8>)
    requires
        MIN_TAG <= tag <= MAX_TAG,
    ensures
        final(buf)@ == old(buf)@ + length_delimited(tag, encode_utf8(value@)),
{
    prost::encoding::string::encode(tag, value, buf)
}

/// Relies on prost::encoding::bytes::encode: key, length, the bytes.
#[verifier::external_body]
fn put_bytes(tag: u32, value: &Vec<u8>, buf: &mut Vec<u8>)
    requires
        MIN_TAG <= tag <= MAX_TAG,
    ensures
        final(buf)@ == old(buf)@ + length_delimited(tag, value@),
{
    prost::encoding::bytes::encode(tag, value, buf)
}

/// Column types of a table schema.
#[derive(PartialEq, Eq, Structural, Clone, Copy, Debug)]
pub enum TableType {
    Unspecified,
    String,
    Int64,
    Double,
    Struct,
    Bytes,
    Bool,
    Timestamp,
    Date,
    Time,
    Datetime,
    Geography,
    Numeric,
    Bignumeric,
    Interval,
    Json,
}

impl TableType {
    /// Types whose values are written as UTF-8 strings.
    pub open spec fn is_stringy(self) -> bool {
        match self {
            TableType::String | TableType::Date | TableType::Time | TableType::Datetime
            | TableType::Timestamp | TableType::Numeric | TableType::Bignumeric
            | TableType::Geography => true,
            _ => false,
        }
    }
}

/// What an encoder expected to find in a value.
#[derive(PartialEq, Eq, Structural, Clone, Copy, Debug)]
pub enum Expected {
    Float,
    Int,
    Bool,
    String,
    Object,
    Bytes,
}

/// Errors of mapping a value onto a table row.
#[derive(PartialEq, Eq, Structural, Clone, Copy, Debug)]
pub enum MappingError {
    /// The value's kind does not match the column type.
    TypeMismatch(Expected, ValueType),
}

/// A column of a table, with the field number its values are written under.
#[derive(Debug)]
pub struct Field {
    pub name: String,
    pub table_type: TableType,
    pub tag: u32,
    /// The columns of a struct column; empty for other types.
    pub subfields: Vec<Field>,
}

/// Every field number in `f`, nested ones included, is a valid protobuf field number.
pub open spec fn field_tags_valid(f: Field) -> bool
    decreases f,
{
    &&& MIN_TAG <= f.tag <= MAX_TAG
    &&& forall|j: int| 0 <= j < f.subfields@.len() ==> field_tags_valid(#[trigger] f.subfields@[j])
}

/// Index of the last field named `name`: of columns sharing a name, the
/// later one holds the name.
#[verifier::opaque]
pub open spec fn last_field_index(fields: Seq<Field>, name: Seq<char>) -> Option<int> {
    if exists|j: int|
        0 <= j < fields.len() && (#[trigger] fields[j]).name@ == name && forall|k: int|
            j < k < fields.len() ==> (#[trigger] fields[k]).name@ != name {
        Some(
            choose|j: int|
                0 <= j < fields.len() && (#[trigger] fields[j]).name@ == name && forall|k: int|
                    j < k < fields.len() ==> (#[trigger] fields[k]).name@ != name,
        )
    } else {
        None
    }
}

pub open spec fn mismatch(expected: Expected, v: Value) -> MappingError {
    MappingError::TypeMismatch(expected, v.kind())
}

/// The bytes that encode `v` as column `f`, or the mismatch that stops it.
pub open spec fn field_encoding(v: Value, f: Field) -> Result<Seq<u8>, MappingError>
    decreases f, 0nat,
{
    let tag = f.tag;
    match f.table_type {
        TableType::Double => match v {
            Value::Float(bits) => Ok(key_bytes(tag, WireType::SixtyFourBit) + le_bytes(bits, 8)),
            _ => Err(mismatch(Expected::Float, v)),
        },
        TableType::Int64 => match v.int_value() {
            Some(i) => Ok(key_bytes(tag, WireType::Varint) + varint_bytes(#[verifier::truncate] (i as u64))),
            None => Err(mismatch(Expected::Int, v)),
        },
        TableType::Bool => match v {
            Value::Bool(b) => Ok(
                key_bytes(tag, WireType::Varint) + varint_bytes(
                    if b {
                        1u64
                    } else {
                        0u64
                    },
                ),
            ),
            _ => Err(mismatch(Expected::Bool, v)),
        },
        TableType::Bytes => match v {
            Value::Bytes(b) => Ok(length_delimited(tag, b@)),
            _ => Err(mismatch(Expected::Bytes, v)),
        },
        TableType::Struct => match v {
            Value::Object(entries) => match entries_encoding(entries@, f.subfields@) {
                Ok(sub) => Ok(length_delimited(tag, sub)),
                Err(e) => Err(e),
            },
            _ => Err(mismatch(Expected::Object, v)),
        },
        TableType::Json | TableType::Interval | TableType::Unspecified => Ok(seq![]),
        _ => match v {
            Value::String(s) => Ok(length_delimited(tag, encode_utf8(s@))),
            _ => Err(mismatch(Expected::String, v)),
        },
    }
}

/// The concatenated encodings of the entries that name one of `fields`, in
/// entry order; entries naming no field are skipped. The first failing entry
/// decides the error.
pub open spec fn entries_encoding(entries: Seq<(String, Value)>, fields: Seq<Field>) -> Result<
    Seq<u8>,
    MappingError,
>
    decreases fields, entries.len(),
{
    if entries.len() == 0 {
        Ok(seq![])
    } else {
        match entries_encoding(entries.drop_last(), fields) {
            Err(e) => Err(e),
            Ok(prefix) => match last_field_index(fields, entries.last().0@) {
                Some(j) => if 0 <= j < fields.len() {
                    match field_encoding(entries.last().1, fields[j]) {
                        Ok(b) => Ok(prefix + b),
                        Err(e) => Err(e),
                    }
                } else {
                    Ok(prefix)
                },
                None => Ok(prefix),
            },
        }
    }
}


/// What one more entry adds to the encoding of a prefix of entries.
pub open spec fn entry_step(
    prefix: Result<Seq<u8>, MappingError>,
    entry: (String, Value),
    fields: Seq<Field>,
) -> Result<Seq<u8>, MappingError> {
    match prefix {
        Err(e) => Err(e),
        Ok(p) => match last_field_index(fields, entry.0@) {
            Some(j) => if 0 <= j < fields.len() {
                match field_encoding(entry.1, fields[j]) {
                    Ok(b) => Ok(p + b),
                    Err(e) => Err(e),
                }
            } else {
                Ok(p)
            },
            None => Ok(p),
        },
    }
}

pub proof fn lemma_entries_step(entries: Seq<(String, Value)>, fields: Seq<Field>, i: int)
    requires
        0 <= i < entries.len(),
    ensures
        entries_encoding(entries.take(i + 1), fields) == entry_step(
            entries_encoding(entries.take(i), fields),
            entries[i],
            fields,
        ),
{
    let t = entries.take(i + 1);
    assert(t.drop_last() =~= entries.take(i));
    assert(t.last() == entries[i]);
    assert(t.len() != 0);
    assert(entries_encoding(t, fields) == entry_step(
        entries_encoding(t.drop_last(), fields),
        t.last(),
        fields,
    ));
}

pub proof fn lemma_entries_empty(entries: Seq<(String, Value)>, fields: Seq<Field>)
    ensures
        entries_encoding(entries.take(0), fields) == Ok::<Seq<u8>, MappingError>(seq![]),
{
}

/// Searches `fields` for a column named `name` from the back.
pub fn find_field(fields: &Vec<Field>, name: &str) -> (r: Option<usize>)
    ensures
        match r {
            Some(j) => j < fields@.len() && last_field_index(fields@, name@) == Some(j as int),
            None => last_field_index(fields@, name@).is_none(),
        },
{
    let mut i: usize = fields.len();
    while i > 0
        invariant
            0 <= i <= fields@.len(),
            forall|k: int| i <= k < fields@.len() ==> (#[trigger] fields@[k]).name@ != name@,
        decreases i,
    {
        if crate::value::same_text(fields[i - 1].name.as_str(), name) {
            proof {
                lemma_last_field_found(fields@, name@, i - 1);
            }
            return Some(i - 1);
        }
        i = i - 1;
    }
    proof {
        reveal(last_field_index);
    }
    None
}

proof fn lemma_last_field_found(fields: Seq<Field>, name: Seq<char>, i: int)
    requires
        0 <= i < fields.len(),
        fields[i].name@ == name,
        forall|k: int| i < k < fields.len() ==> (#[trigger] fields[k]).name@ != name,
    ensures
        last_field_index(fields, name) == Some(i),
{
    reveal(last_field_index);
    assert(0 <= i < fields.len() && fields[i].name@ == name && forall|k: int|
        i < k < fields.len() ==> (#[trigger] fields[k]).name@ != name);
    let j2 = choose|j: int|
        0 <= j < fields.len() && (#[trigger] fields[j]).name@ == name && forall|k: int|
            j < k < fields.len() ==> (#[trigger] fields[k]).name@ != name;
    if j2 < i {
        assert(fields[i].name@ != name);
    } else if j2 > i {
        assert(fields[j2].name@ != name);
    }
}

/// Once a prefix of the entries fails, every longer prefix fails alike.
proof fn lemma_entries_error_sticks(
    entries: Seq<(String, Value)>,
    fields: Seq<Field>,
    i: int,
    n: int,
    e: MappingError,
)
    requires
        0 <= i <= n <= entries.len(),
        entries_encoding(entries.take(i), fields) == Err::<Seq<u8>, MappingError>(e),
    ensures
        entries_encoding(entries.take(n), fields) == Err::<Seq<u8>, MappingError>(e),
    decreases n - i,
{
    if i < n {
        lemma_entries_step(entries, fields, i);
        lemma_entries_error_sticks(entries, fields, i + 1, n, e);
    }
}

/// Appends the eight bytes of `bits`, least significant first.
fn put_le_u64(bits: u64, buf: &mut Vec<u8>)
    ensures
        final(buf)@ == old(buf)@ + le_bytes(bits, 8),
{
    let ghost start = buf@;
    let mut rest: u64 = bits;
    let mut i: usize = 0;
    while i < 8
        invariant
            0 <= i <= 8,
            buf@ + le_bytes(rest, (8 - i) as nat) == start + le_bytes(bits, 8),
        decreases 8 - i,
    {
        let ghost before = buf@;
        buf.push((rest % 256) as u8);
        assert(le_bytes(rest, (8 - i) as nat) == seq![(rest % 256) as u8] + le_bytes(
            rest / 256,
            (8 - i - 1) as nat,
        ));
        assert(buf@ + le_bytes(rest / 256, (8 - i - 1) as nat) =~= before + le_bytes(
            rest,
            (8 - i) as nat,
        ));
        rest = rest / 256;
        i = i + 1;
    }
    assert(le_bytes(rest, 0) =~= seq![]);
    assert(buf@ =~= buf@ + le_bytes(rest, 0));
}

/// Every column in `fields` has valid field numbers.
pub open spec fn fields_tags_valid(fields: Seq<Field>) -> bool {
    forall|j: int| 0 <= j < fields.len() ==> field_tags_valid(#[trigger] fields[j])
}

/// Encodes `val` as column `field`, appending to `result`. On a mismatch
/// `result` is left as it was.
pub fn encode_field(val: &Value, field: &Field, result: &mut Vec<u8>) -> (r: Result<(), MappingError>)
    requires
        field_tags_valid(*field),
    ensures
        match field_encoding(*val, *field) {
            Ok(b) => r.is_ok() && final(result)@ == old(result)@ + b,
            Err(e) => r == Err::<(), MappingError>(e) && final(result)@ == old(result)@,
        },
    decreases *field, 0nat,
{
    let tag = field.tag;
    match field.table_type {
        TableType::Double => match val {
            Value::Float(bits) => {
                put_key(tag, WireType::SixtyFourBit, result);
                put_le_u64(*bits, result);
                assert(result@ =~= old(result)@ + (key_bytes(tag, WireType::SixtyFourBit)
                    + le_bytes(*bits, 8)));
                Ok(())
            },
            _ => Err(MappingError::TypeMismatch(Expected::Float, val.value_type())),
        },
        TableType::Int64 => match val.as_i64() {
            Some(i) => {
                put_int64(tag, i, result);
                assert(result@ =~= old(result)@ + (key_bytes(tag, WireType::Varint)
                    + varint_bytes(#[verifier::truncate] (i as u64))));
                Ok(())
            },
            None => Err(MappingError::TypeMismatch(Expected::Int, val.value_type())),
        },
        TableType::Bool => match val {
            Value::Bool(b) => {
                put_bool(tag, *b, result);
                assert(result@ =~= old(result)@ + (key_bytes(tag, WireType::Varint)
                    + varint_bytes(
                    if *b {
                        1u64
                    } else {
                        0u64
                    },
                )));
                Ok(())
            },
            _ => Err(MappingError::TypeMismatch(Expected::Bool, val.value_type())),
        },
        TableType::Bytes => match val {
            Value::Bytes(b) => {
                put_bytes(tag, b, result);
                Ok(())
            },
            _ => Err(MappingError::TypeMismatch(Expected::Bytes, val.value_type())),
        },
        TableType::Struct => match val {
            Value::Object(entries) => {
                let mut struct_buf: Vec<u8> = Vec::new();
                proof {
                    assert(decreases_to!(*field => field.subfields@));
                }
                match encode_entries(entries, &field.subfields, &mut struct_buf) {
                    Ok(()) => {
                        let ghost sub = struct_buf@;
                        put_key(tag, WireType::LengthDelimited, result);
                        put_varint(struct_buf.len() as u64, result);
                        result.append(&mut struct_buf);
                        assert(result@ =~= old(result)@ + length_delimited(tag, sub));
                        Ok(())
                    },
                    Err(e) => Err(e),
                }
            },
            _ => Err(MappingError::TypeMismatch(Expected::Object, val.value_type())),
        },
        TableType::Json | TableType::Interval | TableType::Unspecified => {
            assert(result@ =~= old(result)@ + seq![]);
            Ok(())
        },
        _ => match val {
            Value::String(s) => {
                put_string(tag, s, result);
                Ok(())
            },
            _ => Err(MappingError::TypeMismatch(Expected::String, val.value_type())),
        },
    }
}

/// Encodes, in order, each entry that names one of `fields`, appending to
/// `buf`; stops at the first mismatch.
pub fn encode_entries(entries: &Vec<(String, Value)>, fields: &Vec<Field>, buf: &mut Vec<u8>) -> (r:
    Result<(), MappingError>)
    requires
        fields_tags_valid(fields@),
    ensures
        match entries_encoding(entries@, fields@) {
            Ok(b) => r.is_ok() && final(buf)@ == old(buf)@ + b,
            Err(e) => r == Err::<(), MappingError>(e),
        },
    decreases fields@, 1nat,
{
    let ghost start = buf@;
    proof {
        lemma_entries_empty(entries@, fields@);
        assert(buf@ =~= start + seq![]);
    }
    let mut i: usize = 0;
    while i < entries.len()
        invariant
            0 <= i <= entries@.len(),
            fields_tags_valid(fields@),
            entries_encoding(entries@.take(i as int), fields@) is Ok,
            buf@ == start + entries_encoding(entries@.take(i as int), fields@)->Ok_0,
        decreases entries@.len() - i,
    {
        proof {
            lemma_entries_step(entries@, fields@, i as int);
        }
        let ghost prefix = entries_encoding(entries@.take(i as int), fields@)->Ok_0;
        let (key, v) = &entries[i];
        match find_field(fields, key.as_str()) {
            Some(j) => {
                proof {
                    assert(decreases_to!(fields@ => fields@[j as int]));
                }
                match encode_field(v, &fields[j], buf) {
                    Ok(()) => {},
                    Err(e) => {
                        proof {
                            lemma_entries_error_sticks(
                                entries@,
                                fields@,
                                i + 1,
                                entries@.len() as int,
                                e,
                            );
                            assert(entries@.take(entries@.len() as int) =~= entries@);
                        }
                        return Err(e);
                    },
                }
                assert(buf@ =~= start + (prefix + field_encoding(*v, fields@[j as int])->Ok_0));
            },
            None => {},
        }
        i = i + 1;
    }
    assert(entries@.take(entries@.len() as int) =~= entries@);
    Ok(())
}


/// The most columns one level of a schema may hold: field numbers are
/// counted in sixteen bits.
pub const MAX_COLUMNS: usize = 65534;

/// One column of a remote table schema, as the table service describes it.
#[derive(Debug)]
pub struct TableFieldSchema {
    pub name: String,
    /// The column type's code; see [`TableType::from_i32`].
    pub field_type: i32,
    /// The columns of a struct column.
    pub fields: Vec<TableFieldSchema>,
}

/// The protobuf field types that table columns map to.
#[derive(PartialEq, Eq, Structural, Clone, Copy, Debug)]
pub enum ProtoType {
    Double,
    Int64,
    Bool,
    String,
    Message,
    Bytes,
}

impl ProtoType {
    /// The type's number in the protobuf descriptor format.
    pub open spec fn spec_code(self) -> i32 {
        match self {
            ProtoType::Double => 1,
            ProtoType::Int64 => 3,
            ProtoType::Bool => 8,
            ProtoType::String => 9,
            ProtoType::Message => 11,
            ProtoType::Bytes => 12,
        }
    }

    pub fn code(self) -> (r: i32)
        ensures
            r == self.spec_code(),
    {
        match self {
            ProtoType::Double => 1,
            ProtoType::Int64 => 3,
            ProtoType::Bool => 8,
            ProtoType::String => 9,
            ProtoType::Message => 11,
            ProtoType::Bytes => 12,
        }
    }
}

/// A field of a protobuf message descriptor.
#[derive(Debug)]
pub struct FieldDescriptor {
    pub name: String,
    pub number: i32,
    pub proto_type: ProtoType,
    /// The nested message type of a struct column.
    pub message_type: Option<String>,
}

/// A protobuf message descriptor.
#[derive(Debug)]
pub struct Descriptor {
    pub name: String,
    pub fields: Vec<FieldDescriptor>,
    /// Message types of the struct columns, in column order.
    pub nested: Vec<Descriptor>,
}

impl TableType {
    /// The column type with code `code`.
    pub open spec fn spec_from_code(code: i32) -> Option<TableType> {
        match code {
            0 => Some(TableType::Unspecified),
            1 => Some(TableType::String),
            2 => Some(TableType::Int64),
            3 => Some(TableType::Double),
            4 => Some(TableType::Struct),
            5 => Some(TableType::Bytes),
            6 => Some(TableType::Bool),
            7 => Some(TableType::Timestamp),
            8 => Some(TableType::Date),
            9 => Some(TableType::Time),
            10 => Some(TableType::Datetime),
            11 => Some(TableType::Geography),
            12 => Some(TableType::Numeric),
            13 => Some(TableType::Bignumeric),
            14 => Some(TableType::Interval),
            15 => Some(TableType::Json),
            _ => None,
        }
    }

    pub fn from_i32(code: i32) -> (r: Option<TableType>)
        ensures
            r == Self::spec_from_code(code),
    {
        match code {
            0 => Some(TableType::Unspecified),
            1 => Some(TableType::String),
            2 => Some(TableType::Int64),
            3 => Some(TableType::Double),
            4 => Some(TableType::Struct),
            5 => Some(TableType::Bytes),
            6 => Some(TableType::Bool),
            7 => Some(TableType::Timestamp),
            8 => Some(TableType::Date),
            9 => Some(TableType::Time),
            10 => Some(TableType::Datetime),
            11 => Some(TableType::Geography),
            12 => Some(TableType::Numeric),
            13 => Some(TableType::Bignumeric),
            14 => Some(TableType::Interval),
            15 => Some(TableType::Json),
            _ => None,
        }
    }

    /// The code of this column type.
    pub fn code(self) -> (r: i32)
        ensures
            Self::spec_from_code(r) == Some(self),
    {
        match self {
            TableType::Unspecified => 0,
            TableType::String => 1,
            TableType::Int64 => 2,
            TableType::Double => 3,
            TableType::Struct => 4,
            TableType::Bytes => 5,
            TableType::Bool => 6,
            TableType::Timestamp => 7,
            TableType::Date => 8,
            TableType::Time => 9,
            TableType::Datetime => 10,
            TableType::Geography => 11,
            TableType::Numeric => 12,
            TableType::Bignumeric => 13,
            TableType::Interval => 14,
            TableType::Json => 15,
        }
    }

    /// The protobuf type that values of this column type are written as.
    pub open spec fn spec_proto_type(self) -> ProtoType {
        match self {
            TableType::Int64 => ProtoType::Int64,
            TableType::Double => ProtoType::Double,
            TableType::Bool => ProtoType::Bool,
            TableType::Bytes => ProtoType::Bytes,
            TableType::Struct => ProtoType::Message,
            _ => ProtoType::String,
        }
    }

    pub fn proto_type(self) -> (r: ProtoType)
        ensures
            r == self.spec_proto_type(),
    {
        match self {
            TableType::Int64 => ProtoType::Int64,
            TableType::Double => ProtoType::Double,
            TableType::Bool => ProtoType::Bool,
            TableType::Bytes => ProtoType::Bytes,
            TableType::Struct => ProtoType::Message,
            _ => ProtoType::String,
        }
    }
}

/// A column is mapped when its type code is known and not `Unspecified`.
pub open spec fn is_mapped(c: TableFieldSchema) -> bool {
    match TableType::spec_from_code(c.field_type) {
        Some(t) => t != TableType::Unspecified,
        None => false,
    }
}

pub open spec fn is_struct_column(c: TableFieldSchema) -> bool {
    TableType::spec_from_code(c.field_type) == Some(TableType::Struct)
}

/// How many of the first `n` columns are mapped.
pub open spec fn mapped_count(raw: Seq<TableFieldSchema>, n: int) -> nat
    decreases n,
{
    if n <= 0 {
        0
    } else {
        mapped_count(raw, n - 1) + if is_mapped(raw[n - 1]) {
            1nat
        } else {
            0nat
        }
    }
}

/// How many of the first `n` columns are struct columns.
pub open spec fn struct_count(raw: Seq<TableFieldSchema>, n: int) -> nat
    decreases n,
{
    if n <= 0 {
        0
    } else {
        struct_count(raw, n - 1) + if is_struct_column(raw[n - 1]) {
            1nat
        } else {
            0nat
        }
    }
}

/// The message type name of the struct column `name`.
pub open spec fn struct_message_type(name: Seq<char>) -> Seq<char> {
    "struct_"@ + name
}

/// Every level of the schema maps few enough columns for the field number
/// counter.
pub open spec fn schema_fits(raw: Seq<TableFieldSchema>) -> bool
    decreases raw,
{
    &&& mapped_count(raw, raw.len() as int) <= MAX_COLUMNS
    &&& forall|j: int| 0 <= j < raw.len() ==> schema_fits(#[trigger] raw[j].fields@)
}

proof fn lemma_mapped_count_mono(raw: Seq<TableFieldSchema>, i: int, n: int)
    requires
        0 <= i <= n,
    ensures
        mapped_count(raw, i) <= mapped_count(raw, n),
    decreases n - i,
{
    if i < n {
        lemma_mapped_count_mono(raw, i, n - 1);
    }
}

/// Whether a column is mapped: its type code is known and not `Unspecified`.
pub fn column_is_mapped(c: &TableFieldSchema) -> (r: bool)
    ensures
        r == is_mapped(*c),
{
    match TableType::from_i32(c.field_type) {
        Some(t) => t != TableType::Unspecified,
        None => false,
    }
}

/// Whether every level of the schema maps few enough columns.
pub fn schema_fits_check(raw: &Vec<TableFieldSchema>) -> (r: bool)
    ensures
        r == schema_fits(raw@),
    decreases raw@,
{
    let mut count: usize = 0;
    let mut i: usize = 0;
    while i < raw.len()
        invariant
            0 <= i <= raw@.len(),
            count == mapped_count(raw@, i as int),
            count <= i,
            forall|j: int| 0 <= j < i ==> schema_fits(#[trigger] raw@[j].fields@),
        decreases raw@.len() - i,
    {
        proof {
            assert(decreases_to!(raw@ => raw@[i as int]));
        }
        if !schema_fits_check(&raw[i].fields) {
            return false;
        }
        if column_is_mapped(&raw[i]) {
            count = count + 1;
        }
        i = i + 1;
    }
    count <= MAX_COLUMNS
}

/// `fields` holds one column per mapped column of `raw`, in order, numbered
/// from 1; a struct column holds the mapping of its own columns.
pub open spec fn maps_fields(raw: Seq<TableFieldSchema>, fields: Seq<Field>) -> bool
    decreases raw,
{
    &&& fields.len() == mapped_count(raw, raw.len() as int)
    &&& forall|j: int|
        0 <= j < raw.len() && #[trigger] is_mapped(raw[j]) ==> {
            let f = fields[mapped_count(raw, j) as int];
            &&& f.name@ == raw[j].name@
            &&& f.tag == mapped_count(raw, j) + 1
            &&& TableType::spec_from_code(raw[j].field_type) == Some(f.table_type)
            &&& if f.table_type == TableType::Struct {
                maps_fields(raw[j].fields@, f.subfields@)
            } else {
                f.subfields@.len() == 0
            }
        }
}

/// `d` is the message descriptor named `name` of the mapped columns of `raw`.
pub open spec fn describes(name: Seq<char>, raw: Seq<TableFieldSchema>, d: Descriptor) -> bool
    decreases raw,
{
    &&& d.name@ == name
    &&& d.fields@.len() == mapped_count(raw, raw.len() as int)
    &&& d.nested@.len() == struct_count(raw, raw.len() as int)
    &&& forall|j: int|
        0 <= j < raw.len() && #[trigger] is_mapped(raw[j]) ==> {
            let fd = d.fields@[mapped_count(raw, j) as int];
            let t = TableType::spec_from_code(raw[j].field_type)->Some_0;
            &&& fd.name@ == raw[j].name@
            &&& fd.number == mapped_count(raw, j) + 1
            &&& fd.proto_type == t.spec_proto_type()
            &&& if t == TableType::Struct {
                &&& fd.message_type matches Some(tn) && tn@ == struct_message_type(raw[j].name@)
                &&& describes(
                    struct_message_type(raw[j].name@),
                    raw[j].fields@,
                    d.nested@[struct_count(raw, j) as int],
                )
            } else {
                fd.message_type is None
            }
        }
}

/// Column `c`, the `count`-th mapped one and preceded by `structs` struct
/// columns, became column `f`, descriptor field `fd` and, for a struct
/// column, nested descriptor `nested`.
#[verifier::opaque]
pub open spec fn column_ok(
    c: TableFieldSchema,
    count: nat,
    f: Field,
    fd: FieldDescriptor,
    nested: Descriptor,
) -> bool {
    let t = TableType::spec_from_code(c.field_type)->Some_0;
    &&& f.name@ == c.name@
    &&& f.tag == count + 1
    &&& TableType::spec_from_code(c.field_type) == Some(f.table_type)
    &&& if f.table_type == TableType::Struct {
        maps_fields(c.fields@, f.subfields@)
    } else {
        f.subfields@.len() == 0
    }
    &&& fd.name@ == c.name@
    &&& fd.number == count + 1
    &&& fd.proto_type == t.spec_proto_type()
    &&& if t == TableType::Struct {
        &&& fd.message_type matches Some(tn) && tn@ == struct_message_type(c.name@)
        &&& describes(struct_message_type(c.name@), c.fields@, nested)
    } else {
        fd.message_type is None
    }
}

proof fn lemma_columns_conclude(
    name: Seq<char>,
    raw: Seq<TableFieldSchema>,
    fields: Seq<Field>,
    d: Descriptor,
)
    requires
        d.name@ == name,
        fields.len() == mapped_count(raw, raw.len() as int),
        d.fields@.len() == mapped_count(raw, raw.len() as int),
        d.nested@.len() == struct_count(raw, raw.len() as int),
        forall|j: int|
            0 <= j < raw.len() && #[trigger] is_mapped(raw[j]) ==> column_ok(
                raw[j],
                mapped_count(raw, j),
                fields[mapped_count(raw, j) as int],
                d.fields@[mapped_count(raw, j) as int],
                d.nested@[struct_count(raw, j) as int],
            ),
    ensures
        maps_fields(raw, fields),
        describes(name, raw, d),
{
    reveal(column_ok);
}

/// Maps the columns of a table schema to a message descriptor named
/// `schema_name` and to the columns that values are encoded by. Columns of
/// unknown or unspecified type are left out and take no field number.
pub fn map_field(schema_name: &str, raw_fields: &Vec<TableFieldSchema>) -> (r: (Descriptor, Vec<Field>))
    requires
        schema_fits(raw_fields@),
    ensures
        describes(schema_name@, raw_fields@, r.0),
        maps_fields(raw_fields@, r.1@),
        fields_tags_valid(r.1@),
    decreases raw_fields@,
{
    let ghost raw = raw_fields@;
    let mut nested_types: Vec<Descriptor> = Vec::new();
    let mut proto_fields: Vec<FieldDescriptor> = Vec::new();
    let mut fields: Vec<Field> = Vec::new();
    let mut tag: u32 = 1;
    let mut i: usize = 0;
    while i < raw_fields.len()
        invariant
            0 <= i <= raw.len(),
            raw == raw_fields@,
            schema_fits(raw),
            tag == mapped_count(raw, i as int) + 1,
            mapped_count(raw, i as int) <= i,
            mapped_count(raw, i as int) <= mapped_count(raw, raw.len() as int),
            struct_count(raw, i as int) <= i,
            fields@.len() == mapped_count(raw, i as int),
            proto_fields@.len() == mapped_count(raw, i as int),
            nested_types@.len() == struct_count(raw, i as int),
            fields_tags_valid(fields@),
            forall|j: int|
                0 <= j < i && #[trigger] is_mapped(raw[j]) ==> mapped_count(raw, j) < fields@.len()
                    && (is_struct_column(raw[j]) ==> struct_count(raw, j) < nested_types@.len())
                    && column_ok(
                    raw[j],
                    mapped_count(raw, j),
                    fields@[mapped_count(raw, j) as int],
                    proto_fields@[mapped_count(raw, j) as int],
                    nested_types@[struct_count(raw, j) as int],
                ),
        decreases raw.len() - i,
    {
        proof {
            lemma_mapped_count_mono(raw, i + 1, raw.len() as int);
        }
        let raw_field = &raw_fields[i];
        let table_type = match TableType::from_i32(raw_field.field_type) {
            Some(t) => t,
            None => {
                i = i + 1;
                continue;
            },
        };
        if table_type == TableType::Unspecified {
            i = i + 1;
            continue;
        }
        let grpc_type = table_type.proto_type();
        let mut message_type: Option<String> = None;
        let mut subfields: Vec<Field> = Vec::new();
        let ghost nested_before = nested_types@;
        if table_type == TableType::Struct {
            let mut message_name = "struct_".to_owned();
            message_name.append(raw_field.name.as_str());
            proof {
                assert(decreases_to!(raw => raw[i as int]));
                assert(schema_fits(raw[i as int].fields@));
            }
            let mapped = map_field(message_name.as_str(), &raw_field.fields);
            let (nested, sub) = mapped;
            nested_types.push(nested);
            subfields = sub;
            message_type = Some(message_name);
        }
        let ghost fields_before = fields@;
        let ghost proto_before = proto_fields@;
        proto_fields.push(
            FieldDescriptor {
                name: raw_field.name.clone(),
                number: tag as i32,
                proto_type: grpc_type,
                message_type,
            },
        );
        fields.push(Field { name: raw_field.name.clone(), table_type, tag, subfields });
        proof {
            reveal(column_ok);
            assert(column_ok(
                raw[i as int],
                mapped_count(raw, i as int),
                fields@[mapped_count(raw, i as int) as int],
                proto_fields@[mapped_count(raw, i as int) as int],
                nested_types@[struct_count(raw, i as int) as int],
            ));
            assert forall|k: int| 0 <= k < fields@.len() implies field_tags_valid(
                #[trigger] fields@[k],
            ) by {
                if k < fields_before.len() {
                    assert(fields@[k] == fields_before[k]);
                }
            }
            assert forall|j: int|
                0 <= j < i + 1 && #[trigger] is_mapped(raw[j]) implies mapped_count(raw, j)
                < fields@.len() && (is_struct_column(raw[j]) ==> struct_count(raw, j)
                < nested_types@.len()) && column_ok(
                raw[j],
                mapped_count(raw, j),
                fields@[mapped_count(raw, j) as int],
                proto_fields@[mapped_count(raw, j) as int],
                nested_types@[struct_count(raw, j) as int],
            ) by {
                if j < i {
                    assert(fields@[mapped_count(raw, j) as int] == fields_before[mapped_count(
                        raw,
                        j,
                    ) as int]);
                    assert(proto_fields@[mapped_count(raw, j) as int] == proto_before[mapped_count(
                        raw,
                        j,
                    ) as int]);
                    if is_struct_column(raw[j]) {
                        assert(nested_types@[struct_count(raw, j) as int]
                            == nested_before[struct_count(raw, j) as int]);
                    }
                }
            }
        }
        tag = tag + 1;
        i = i + 1;
    }
    let descriptor = Descriptor {
        name: schema_name.to_owned(),
        fields: proto_fields,
        nested: nested_types,
    };
    proof {
        lemma_columns_conclude(schema_name@, raw, fields@, descriptor);
    }
    (descriptor, fields)
}

/// The columns of a table and the descriptor of its rows.
#[derive(Debug)]
pub struct JsonToProtobufMapping {
    fields: Vec<Field>,
    descriptor: Descriptor,
}

impl JsonToProtobufMapping {
    /// The columns values are encoded by.
    pub closed spec fn columns(&self) -> Seq<Field> {
        self.fields@
    }

    /// The row descriptor.
    pub closed spec fn spec_descriptor(&self) -> Descriptor {
        self.descriptor
    }

    /// Field numbers are valid throughout.
    pub open spec fn wf(&self) -> bool {
        fields_tags_valid(self.columns())
    }

    /// Maps a table schema; the row message is named `table`.
    pub fn new(vec: &Vec<TableFieldSchema>) -> (r: Self)
        requires
            schema_fits(vec@),
        ensures
            r.wf(),
            maps_fields(vec@, r.columns()),
            describes("table"@, vec@, r.spec_descriptor()),
    {
        let (descriptor, fields) = map_field("table", vec);
        JsonToProtobufMapping { fields, descriptor }
    }

    /// Encodes an object value as one row: each entry naming a column is
    /// encoded, in entry order; other entries are skipped.
    pub fn map(&self, value: &Value) -> (r: Result<Vec<u8>, MappingError>)
        requires
            self.wf(),
        ensures
            match value {
                Value::Object(entries) => match entries_encoding(entries@, self.columns()) {
                    Ok(b) => r matches Ok(bytes) && bytes@ == b,
                    Err(e) => r == Err::<Vec<u8>, MappingError>(e),
                },
                _ => r == Err::<Vec<u8>, MappingError>(mismatch(Expected::Object, *value)),
            },
    {
        match value {
            Value::Object(entries) => {
                let mut result: Vec<u8> = Vec::new();
                match encode_entries(entries, &self.fields, &mut result) {
                    Ok(()) => {
                        assert(result@ =~= seq![] + result@);
                        Ok(result)
                    },
                    Err(e) => Err(e),
                }
            },
            _ => Err(MappingError::TypeMismatch(Expected::Object, value.value_type())),
        }
    }

    pub fn descriptor(&self) -> (r: &Descriptor)
        ensures
            *r == self.spec_descriptor(),
    {
        &self.descriptor
    }
}

/// What a value must hold to be encoded as a column of type `t`; none for
/// the types that are skipped.
pub open spec fn expected_kind(t: TableType) -> Option<Expected> {
    match t {
        TableType::Double => Some(Expected::Float),
        TableType::Int64 => Some(Expected::Int),
        TableType::Bool => Some(Expected::Bool),
        TableType::Bytes => Some(Expected::Bytes),
        TableType::Struct => Some(Expected::Object),
        TableType::Json | TableType::Interval | TableType::Unspecified => None,
        _ => Some(Expected::String),
    }
}

pub open spec fn kind_matches(v: Value, e: Expected) -> bool {
    match e {
        Expected::Float => v is Float,
        Expected::Int => v.int_value() is Some,
        Expected::Bool => v is Bool,
        Expected::String => v is String,
        Expected::Object => v is Object,
        Expected::Bytes => v is Bytes,
    }
}

/// Type mismatch: a value of the wrong kind for its column fails to
/// encode, with an error that names the kind expected and the kind found.
pub proof fn lemma_type_mismatch(v: Value, f: Field)
    requires
        expected_kind(f.table_type) is Some,
        !kind_matches(v, expected_kind(f.table_type)->Some_0),
    ensures
        field_encoding(v, f) == Err::<Seq<u8>, MappingError>(
            MappingError::TypeMismatch(expected_kind(f.table_type)->Some_0, v.kind()),
        ),
{
}

/// Reads a varint: its value and how many bytes it took.
pub open spec fn decode_varint(b: Seq<u8>) -> Option<(int, nat)>
    decreases b.len(),
{
    if b.len() == 0 {
        None
    } else if b[0] < 128 {
        Some((b[0] as int, 1nat))
    } else {
        match decode_varint(b.drop_first()) {
            Some((v, n)) => Some(((b[0] - 128) + 128 * v, n + 1)),
            None => None,
        }
    }
}

/// Reads little-endian bytes as a number.
pub open spec fn le_value(b: Seq<u8>) -> int
    decreases b.len(),
{
    if b.len() == 0 {
        0
    } else {
        b[0] + 256 * le_value(b.drop_first())
    }
}

/// A field's payload as its wire type gives it.
pub enum WireValue {
    Varint(int),
    Fixed64(int),
    Delimited(Seq<u8>),
}

/// Reads a whole encoded field: its number and payload.
pub open spec fn decode_field(b: Seq<u8>) -> Option<(int, WireValue)> {
    match decode_varint(b) {
        Some((key, n)) => {
            let rest = b.skip(n as int);
            let tag = key / 8;
            if key % 8 == 0 {
                match decode_varint(rest) {
                    Some((x, m)) => if m == rest.len() {
                        Some((tag, WireValue::Varint(x)))
                    } else {
                        None
                    },
                    None => None,
                }
            } else if key % 8 == 1 {
                if rest.len() == 8 {
                    Some((tag, WireValue::Fixed64(le_value(rest))))
                } else {
                    None
                }
            } else if key % 8 == 2 {
                match decode_varint(rest) {
                    Some((len, m)) => if rest.len() == m + len {
                        Some((tag, WireValue::Delimited(rest.skip(m as int))))
                    } else {
                        None
                    },
                    None => None,
                }
            } else {
                None
            }
        },
        None => None,
    }
}

/// Whether a reader of a column of type `t` gets `v` back from payload `w`:
/// integers as two's complement, booleans as non-zero, doubles as their
/// bits, strings as UTF-8, bytes as they are.
pub open spec fn reads_back(t: TableType, w: WireValue, v: Value) -> bool {
    match (w, v) {
        (WireValue::Varint(x), Value::I64(i)) => t == TableType::Int64 && 0 <= x <= u64::MAX
            && #[verifier::truncate] ((x as u64) as i64) == i,
        (WireValue::Varint(x), Value::Bool(b)) => t == TableType::Bool && (x != 0) == b,
        (WireValue::Fixed64(x), Value::Float(bits)) => t == TableType::Double && x == bits,
        (WireValue::Delimited(p), Value::Bytes(b)) => t == TableType::Bytes && p == b@,
        (WireValue::Delimited(p), Value::String(s)) => t.is_stringy() && decode_utf8(p) == s@,
        _ => false,
    }
}

/// The value kind that a column of type `t` is written from, for the
/// scalar types.
pub open spec fn canonical_for(t: TableType, v: Value) -> bool {
    match t {
        TableType::Int64 => v is I64,
        TableType::Bool => v is Bool,
        TableType::Double => v is Float,
        TableType::Bytes => v is Bytes,
        _ => t.is_stringy() && v is String,
    }
}

proof fn lemma_varint_round_trip(v: u64, rest: Seq<u8>)
    ensures
        decode_varint(varint_bytes(v) + rest) == Some((v as int, varint_bytes(v).len())),
    decreases v,
{
    let b = varint_bytes(v) + rest;
    if v < 128 {
        assert(b[0] == v as u8);
    } else {
        lemma_varint_round_trip(v / 128, rest);
        assert(b.drop_first() =~= varint_bytes(v / 128) + rest);
        assert(b[0] == (v % 128 + 128) as u8);
    }
}

pub open spec fn pow256(n: nat) -> int
    decreases n,
{
    if n == 0 {
        1
    } else {
        256 * pow256((n - 1) as nat)
    }
}

proof fn lemma_pow256_positive(n: nat)
    ensures
        pow256(n) > 0,
    decreases n,
{
    if n > 0 {
        lemma_pow256_positive((n - 1) as nat);
    }
}

proof fn lemma_le_round_trip(v: u64, n: nat)
    ensures
        le_value(le_bytes(v, n)) == (v as int) % pow256(n),
        le_bytes(v, n).len() == n,
    decreases n,
{
    if n > 0 {
        lemma_le_round_trip(v / 256, (n - 1) as nat);
        lemma_pow256_positive((n - 1) as nat);
        lemma_mod_breakdown(v as int, 256, pow256((n - 1) as nat));
        let b = le_bytes(v, n);
        assert(b.drop_first() =~= le_bytes(v / 256, (n - 1) as nat));
    }
}

proof fn lemma_key_round_trip(tag: u32, wire: WireType, rest: Seq<u8>)
    requires
        MIN_TAG <= tag <= MAX_TAG,
    ensures
        decode_varint(key_bytes(tag, wire) + rest) == Some(
            ((tag * 8 + wire.code()) as int, key_bytes(tag, wire).len()),
        ),
        (tag * 8 + wire.code()) / 8 == tag,
        (tag * 8 + wire.code()) % 8 == wire.code(),
{
    lemma_varint_round_trip((tag * 8 + wire.code()) as u64, rest);
}

proof fn lemma_varint_field(tag: u32, x: u64)
    requires
        MIN_TAG <= tag <= MAX_TAG,
    ensures
        decode_field(key_bytes(tag, WireType::Varint) + varint_bytes(x)) == Some(
            (tag as int, WireValue::Varint(x as int)),
        ),
{
    let b = key_bytes(tag, WireType::Varint) + varint_bytes(x);
    lemma_key_round_trip(tag, WireType::Varint, varint_bytes(x));
    let n = key_bytes(tag, WireType::Varint).len();
    assert(b.skip(n as int) =~= varint_bytes(x));
    lemma_varint_round_trip(x, seq![]);
    assert(varint_bytes(x) + seq![] =~= varint_bytes(x));
}

proof fn lemma_fixed64_field(tag: u32, bits: u64)
    requires
        MIN_TAG <= tag <= MAX_TAG,
    ensures
        decode_field(key_bytes(tag, WireType::SixtyFourBit) + le_bytes(bits, 8)) == Some(
            (tag as int, WireValue::Fixed64(bits as int)),
        ),
{
    let b = key_bytes(tag, WireType::SixtyFourBit) + le_bytes(bits, 8);
    lemma_key_round_trip(tag, WireType::SixtyFourBit, le_bytes(bits, 8));
    let n = key_bytes(tag, WireType::SixtyFourBit).len();
    assert(b.skip(n as int) =~= le_bytes(bits, 8));
    lemma_le_round_trip(bits, 8);
    reveal_with_fuel(pow256, 9);
    assert(pow256(8) == 0x1_0000_0000_0000_0000);
}

proof fn lemma_delimited_field(tag: u32, payload: Seq<u8>)
    requires
        MIN_TAG <= tag <= MAX_TAG,
        payload.len() <= u64::MAX,
    ensures
        decode_field(length_delimited(tag, payload)) == Some(
            (tag as int, WireValue::Delimited(payload)),
        ),
{
    let len_bytes = varint_bytes(payload.len() as u64);
    let b = length_delimited(tag, payload);
    assert(b =~= key_bytes(tag, WireType::LengthDelimited) + (len_bytes + payload));
    lemma_key_round_trip(tag, WireType::LengthDelimited, len_bytes + payload);
    let n = key_bytes(tag, WireType::LengthDelimited).len();
    assert(b.skip(n as int) =~= len_bytes + payload);
    lemma_varint_round_trip(payload.len() as u64, payload);
    assert((len_bytes + payload).skip(len_bytes.len() as int) =~= payload);
}

/// Round trip: for each scalar column type, the bytes that a value of the
/// matching kind encodes to read back, with the column's field number, as
/// that value.
pub proof fn lemma_round_trip(v: Value, f: Field)
    requires
        field_tags_valid(f),
        canonical_for(f.table_type, v),
        v matches Value::String(s) ==> encode_utf8(s@).len() <= u64::MAX,
        v matches Value::Bytes(b) ==> b@.len() <= u64::MAX,
    ensures
        field_encoding(v, f) matches Ok(b) && decode_field(b) matches Some((tag, w)) && tag
            == f.tag && reads_back(f.table_type, w, v),
{
    match v {
        Value::I64(i) => {
            lemma_varint_field(f.tag, #[verifier::truncate] (i as u64));
            assert(#[verifier::truncate] ((#[verifier::truncate] (i as u64)) as i64) == i)
                by (bit_vector);
        },
        Value::Bool(b) => {
            lemma_varint_field(
                f.tag,
                if b {
                    1u64
                } else {
                    0u64
                },
            );
        },
        Value::Float(bits) => {
            lemma_fixed64_field(f.tag, bits);
        },
        Value::Bytes(b) => {
            lemma_delimited_field(f.tag, b@);
        },
        Value::String(s) => {
            lemma_delimited_field(f.tag, encode_utf8(s@));
            vstd::utf8::encode_utf8_decode_utf8(s@);
        },
        _ => {},
    }
}

proof fn lemma_mapped_position(raw: Seq<TableFieldSchema>, n: int, k: int)
    requires
        0 <= n <= raw.len(),
        0 <= k < mapped_count(raw, n),
    ensures
        exists|j: int| 0 <= j < n && #[trigger] is_mapped(raw[j]) && mapped_count(raw, j) == k,
    decreases n,
{
    if mapped_count(raw, n - 1) > k {
        lemma_mapped_position(raw, n - 1, k);
    } else {
        assert(is_mapped(raw[n - 1]) && mapped_count(raw, n - 1) == k);
    }
}

/// Tag assignment: the mapped columns carry the field numbers 1 to N in
/// schema order, N being the number of columns of known, specified type;
/// the others take none.
pub proof fn lemma_tags_in_order(raw: Seq<TableFieldSchema>, fields: Seq<Field>)
    requires
        maps_fields(raw, fields),
    ensures
        fields.len() == mapped_count(raw, raw.len() as int),
        forall|k: int| 0 <= k < fields.len() ==> (#[trigger] fields[k]).tag == k + 1,
{
    assert forall|k: int| 0 <= k < fields.len() implies (#[trigger] fields[k]).tag == k + 1 by {
        lemma_mapped_position(raw, raw.len() as int, k);
    }
}

} // verus!
