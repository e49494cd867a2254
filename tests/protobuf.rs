use prost::encoding::{decode_key, decode_varint, WireType};
use prost_types::field_descriptor_proto;
use tremor_runtime::protobuf::{
    encode_field, map_field, Expected, Field, JsonToProtobufMapping, MappingError, ProtoType,
    TableFieldSchema, TableType,
};
use tremor_runtime::value::{Value, ValueType};

fn column(name: &str, table_type: TableType, fields: Vec<TableFieldSchema>) -> TableFieldSchema {
    TableFieldSchema {
        name: name.to_string(),
        field_type: table_type.code(),
        fields,
    }
}

fn field(table_type: TableType, tag: u32) -> Field {
    Field {
        name: String::new(),
        table_type,
        tag,
        subfields: vec![],
    }
}

fn object(entries: Vec<(&str, Value)>) -> Value {
    Value::Object(
        entries
            .into_iter()
            .map(|(k, v)| (k.to_string(), v))
            .collect(),
    )
}

fn proto_code(t: field_descriptor_proto::Type) -> i32 {
    t as i32
}

#[test]
fn skips_unknown_field_types() {
    let result = map_field(
        "name",
        &vec![TableFieldSchema {
            name: "something".to_string(),
            field_type: -1,
            fields: vec![],
        }],
    );

    assert_eq!(result.0.fields.len(), 0);
    assert_eq!(result.1.len(), 0);
}

#[test]
fn skips_fields_of_unspecified_type() {
    let result = map_field(
        "name",
        &vec![column("something", TableType::Unspecified, vec![])],
    );

    assert_eq!(result.0.fields.len(), 0);
    assert_eq!(result.1.len(), 0);
}

#[test]
fn can_map_simple_field() {
    let data = vec![
        (TableType::Int64, field_descriptor_proto::Type::Int64),
        (TableType::Double, field_descriptor_proto::Type::Double),
        (TableType::Bool, field_descriptor_proto::Type::Bool),
        (TableType::Bytes, field_descriptor_proto::Type::Bytes),
        (TableType::Timestamp, field_descriptor_proto::Type::String),
    ];

    for item in data {
        let result = map_field("name", &vec![column("something", item.0, vec![])]);

        assert_eq!(result.1.len(), 1);
        assert_eq!(result.1[0].name, "something");
        assert_eq!(result.1[0].table_type, item.0);
        assert_eq!(result.0.fields[0].proto_type.code(), proto_code(item.1));
    }
}

#[test]
fn can_map_a_struct() {
    let result = map_field(
        "name",
        &vec![column(
            "something",
            TableType::Struct,
            vec![column("subfield_a", TableType::Int64, vec![])],
        )],
    );

    assert_eq!(result.1.len(), 1);
    assert_eq!(result.1[0].name, "something");
    assert_eq!(result.1[0].table_type, TableType::Struct);
    assert_eq!(
        result.0.fields[0].proto_type.code(),
        proto_code(field_descriptor_proto::Type::Message)
    );
    assert_eq!(result.1[0].subfields.len(), 1);
    assert_eq!(result.1[0].subfields[0].name, "subfield_a");
    assert_eq!(result.1[0].subfields[0].table_type, TableType::Int64);
}

#[test]
fn encode_fails_on_type_mismatch() {
    let data = [
        (Value::String("asdf".to_string()), field(TableType::Int64, 1)),
        (Value::Float(1.243f64.to_bits()), field(TableType::String, 2)),
    ];

    for (value, field) in data {
        let mut result_data = vec![];

        let result = encode_field(&value, &field, &mut result_data);

        assert!(result.is_err());
    }
}

#[test]
fn test_can_encode_stringy_types() {
    let data = [
        TableType::String,
        TableType::Date,
        TableType::Time,
        TableType::Datetime,
        TableType::Geography,
        TableType::Numeric,
        TableType::Bignumeric,
        TableType::Timestamp,
    ];

    for item in data {
        let mut result = vec![];
        assert!(
            encode_field(&Value::String("I".to_string()), &field(item, 123), &mut result).is_ok(),
            "TableType: {:?} did not encode correctly",
            item
        );

        assert_eq!([218u8, 7u8, 1u8, 73u8], result[..]);
    }
}

#[test]
fn test_can_encode_a_struct() {
    let input = object(vec![("a", Value::I64(1)), ("b", Value::I64(1024))]);

    let mut a = field(TableType::Int64, 1);
    a.name = "a".to_string();
    let mut b = field(TableType::Int64, 2);
    b.name = "b".to_string();
    let field = Field {
        name: String::new(),
        table_type: TableType::Struct,
        tag: 1024,
        subfields: vec![a, b],
    };

    let mut result = Vec::new();
    assert!(encode_field(&input, &field, &mut result).is_ok());

    assert_eq!([130u8, 64u8, 5u8, 8u8, 1u8, 16u8, 128u8, 8u8], result[..]);
}

#[test]
fn can_encode_a_double() {
    let value = Value::Float(1.2345f64.to_bits());
    let field = field(TableType::Double, 2);

    let mut result = Vec::new();
    assert!(encode_field(&value, &field, &mut result).is_ok());

    assert_eq!(
        [17u8, 141u8, 151u8, 110u8, 18u8, 131u8, 192u8, 243u8, 63u8],
        result[..]
    );
}

#[test]
fn can_encode_boolean() {
    let value = Value::Bool(false);
    let field = field(TableType::Bool, 43);

    let mut result = Vec::new();
    assert!(encode_field(&value, &field, &mut result).is_ok());

    assert_eq!([216u8, 2u8, 0u8], result[..]);
}

#[test]
fn can_encode_bytes() {
    let value = Value::Bytes(vec![0x1u8, 0x2u8, 0x3u8]);
    let field = field(TableType::Bytes, 1);

    let mut result = Vec::new();
    assert!(encode_field(&value, &field, &mut result).is_ok());

    assert_eq!([10u8, 3u8, 1u8, 2u8, 3u8], result[..]);
}

#[test]
fn can_encode_json() {
    let value = Value::Object(vec![]);
    let field = field(TableType::Json, 1);

    let mut result = Vec::new();
    assert!(encode_field(&value, &field, &mut result).is_ok());

    assert_eq!([] as [u8; 0], result[..]);
}

#[test]
fn can_encode_interval() {
    let value = Value::String(String::new());
    let field = field(TableType::Interval, 1);

    let mut result = Vec::new();
    assert!(encode_field(&value, &field, &mut result).is_ok());

    assert_eq!([] as [u8; 0], result[..]);
}

#[test]
fn can_skips_unspecified() {
    let value = Value::String(String::new());
    let field = field(TableType::Unspecified, 1);

    let mut result = Vec::new();
    assert!(encode_field(&value, &field, &mut result).is_ok());

    assert_eq!([] as [u8; 0], result[..]);
}

fn two_int_columns() -> Vec<TableFieldSchema> {
    vec![
        column("a", TableType::Int64, vec![]),
        column("b", TableType::Int64, vec![]),
    ]
}

#[test]
fn mapping_generates_a_correct_descriptor() {
    let mapping = JsonToProtobufMapping::new(&two_int_columns());

    let descriptor = mapping.descriptor();
    assert_eq!(2, descriptor.fields.len());
    assert_eq!(
        field_descriptor_proto::Type::Int64 as i32,
        descriptor.fields[0].proto_type.code()
    );
    assert_eq!(
        field_descriptor_proto::Type::Int64 as i32,
        descriptor.fields[1].proto_type.code()
    );
}

#[test]
fn can_map_json_to_protobuf() {
    let mapping = JsonToProtobufMapping::new(&two_int_columns());
    let value = object(vec![("a", Value::I64(12)), ("b", Value::I64(21))]);
    let result = mapping.map(&value).unwrap();

    assert_eq!([8u8, 12u8, 16u8, 21u8], result[..]);
}

#[test]
fn map_field_ignores_fields_that_are_not_in_definition() {
    let mapping = JsonToProtobufMapping::new(&two_int_columns());
    let value = object(vec![
        ("a", Value::I64(12)),
        ("b", Value::I64(21)),
        ("c", Value::I64(33)),
    ]);
    let result = mapping.map(&value).unwrap();

    assert_eq!([8u8, 12u8, 16u8, 21u8], result[..]);
}

#[test]
fn map_field_ignores_struct_fields_that_are_not_in_definition() {
    let mapping = JsonToProtobufMapping::new(&vec![column(
        "a",
        TableType::Struct,
        vec![column("x", TableType::Int64, vec![])],
    )]);
    let inner = object(vec![("x", Value::I64(10)), ("y", Value::I64(10))]);
    let value = object(vec![("a", inner)]);
    let result = mapping.map(&value).unwrap();

    assert_eq!([10u8, 2u8, 8u8, 10u8], result[..]);
}

#[test]
fn fails_on_bytes_type_mismatch() {
    let mapping = JsonToProtobufMapping::new(&vec![column("a", TableType::Bytes, vec![])]);
    let value = object(vec![("a", Value::I64(12))]);
    let result = mapping.map(&value);

    if let Err(MappingError::TypeMismatch(Expected::Bytes, x)) = result {
        assert_eq!(x, ValueType::I64);
    } else {
        panic!("Bytes conversion did not fail on type mismatch");
    }
}

#[test]
fn fails_if_the_event_is_not_an_object() {
    let mapping = JsonToProtobufMapping::new(&vec![column("a", TableType::Bytes, vec![])]);
    let result = mapping.map(&Value::I64(123));

    if let Err(MappingError::TypeMismatch(Expected::Object, x)) = result {
        assert_eq!(x, ValueType::I64);
    } else {
        panic!("Mapping did not fail on non-object event");
    }
}

#[test]
fn tags_follow_schema_order_and_skip_unknown_columns() {
    let result = map_field(
        "table",
        &vec![
            column("a", TableType::Int64, vec![]),
            TableFieldSchema {
                name: "odd".to_string(),
                field_type: 99,
                fields: vec![],
            },
            column("b", TableType::String, vec![]),
            column("c", TableType::Unspecified, vec![]),
            column("d", TableType::Bool, vec![]),
        ],
    );
    let tags: Vec<u32> = result.1.iter().map(|f| f.tag).collect();
    assert_eq!(tags, vec![1, 2, 3]);
    let numbers: Vec<i32> = result.0.fields.iter().map(|f| f.number).collect();
    assert_eq!(numbers, vec![1, 2, 3]);
    assert_eq!(result.0.name, "table");
}

#[test]
fn struct_columns_get_nested_descriptors() {
    let result = map_field(
        "table",
        &vec![column(
            "inner",
            TableType::Struct,
            vec![column("x", TableType::Double, vec![])],
        )],
    );
    assert_eq!(result.0.fields[0].message_type.as_deref(), Some("struct_inner"));
    assert_eq!(result.0.nested.len(), 1);
    assert_eq!(result.0.nested[0].name, "struct_inner");
    assert_eq!(result.0.nested[0].fields[0].proto_type, ProtoType::Double);
    assert_eq!(result.0.nested[0].fields[0].number, 1);
}

#[test]
fn negative_int64_takes_ten_varint_bytes() {
    let mut result = Vec::new();
    assert!(encode_field(&Value::I64(-1), &field(TableType::Int64, 1), &mut result).is_ok());
    assert_eq!(
        result,
        vec![8, 0xFF, 0xFF, 0xFF, 0xFF, 0xFF, 0xFF, 0xFF, 0xFF, 0xFF, 0x01]
    );
}

#[test]
fn unsigned_values_encode_as_int64_when_they_fit() {
    let mut result = Vec::new();
    assert!(encode_field(&Value::U64(300), &field(TableType::Int64, 1), &mut result).is_ok());
    assert_eq!(result, vec![8, 0xAC, 0x02]);
    let mut too_big = Vec::new();
    let err = encode_field(&Value::U64(u64::MAX), &field(TableType::Int64, 1), &mut too_big);
    assert_eq!(
        err,
        Err(MappingError::TypeMismatch(Expected::Int, ValueType::U64))
    );
    assert!(too_big.is_empty());
}

#[test]
fn mismatch_names_expected_and_found_kinds() {
    let mut out = vec![7u8];
    let err = encode_field(&Value::Bool(true), &field(TableType::String, 3), &mut out);
    assert_eq!(
        err,
        Err(MappingError::TypeMismatch(Expected::String, ValueType::Bool))
    );
    assert_eq!(out, vec![7u8]);
}

#[test]
fn multibyte_strings_are_written_as_utf8() {
    let mut result = Vec::new();
    assert!(encode_field(
        &Value::String("é".to_string()),
        &field(TableType::String, 1),
        &mut result
    )
    .is_ok());
    assert_eq!(result, vec![10, 2, 0xC3, 0xA9]);
}

#[test]
fn struct_with_bad_member_fails_and_leaves_output() {
    let mut a = field(TableType::Int64, 1);
    a.name = "a".to_string();
    let s = Field {
        name: String::new(),
        table_type: TableType::Struct,
        tag: 5,
        subfields: vec![a],
    };
    let mut out = vec![1u8, 2u8];
    let value = object(vec![("a", Value::String("x".to_string()))]);
    assert_eq!(
        encode_field(&value, &s, &mut out),
        Err(MappingError::TypeMismatch(Expected::Int, ValueType::String))
    );
    assert_eq!(out, vec![1u8, 2u8]);
}

#[test]
fn table_type_codes_round_trip() {
    for code in 0..16 {
        let t = TableType::from_i32(code).unwrap();
        assert_eq!(t.code(), code);
    }
    assert_eq!(TableType::from_i32(16), None);
}

#[test]
fn encoded_scalars_decode_with_prost() {
    let mut buf = Vec::new();
    assert!(encode_field(&Value::I64(-42), &field(TableType::Int64, 7), &mut buf).is_ok());
    let mut slice = &buf[..];
    let (tag, wire) = decode_key(&mut slice).unwrap();
    assert_eq!(tag, 7);
    assert_eq!(wire, WireType::Varint);
    assert_eq!(decode_varint(&mut slice).unwrap() as i64, -42);
    assert!(slice.is_empty());

    let mut buf = Vec::new();
    assert!(encode_field(
        &Value::String("grüße".to_string()),
        &field(TableType::Date, 300),
        &mut buf
    )
    .is_ok());
    let mut slice = &buf[..];
    let (tag, wire) = decode_key(&mut slice).unwrap();
    assert_eq!((tag, wire), (300, WireType::LengthDelimited));
    let len = decode_varint(&mut slice).unwrap() as usize;
    assert_eq!(std::str::from_utf8(&slice[..len]).unwrap(), "grüße");

    let mut buf = Vec::new();
    let bits = (-0.5f64).to_bits();
    assert!(encode_field(&Value::Float(bits), &field(TableType::Double, 1), &mut buf).is_ok());
    let mut slice = &buf[..];
    let (_, wire) = decode_key(&mut slice).unwrap();
    assert_eq!(wire, WireType::SixtyFourBit);
    assert_eq!(f64::from_le_bytes(slice.try_into().unwrap()), -0.5);
}

#[test]
fn duplicate_column_names_use_the_last_column() {
    let mapping = JsonToProtobufMapping::new(&vec![
        column("a", TableType::Int64, vec![]),
        column("a", TableType::Bool, vec![]),
    ]);
    let result = mapping.map(&object(vec![("a", Value::Bool(true))])).unwrap();
    assert_eq!(result, vec![16u8, 1u8]);
}
