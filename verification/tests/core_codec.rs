use corim_core::choice::{check, resolve, Form};
use corim_core::error::{CodecError, TriplesError};
use corim_core::fixed_bytes::FixedBytes;
use corim_core::non_empty::NonEmptyVec;
use corim_core::record::{decode_record, encode_record, find_slot, Record, Slot};
use corim_core::tagged::{unwrap, wrap, Tagged};
use corim_core::value::{Entry, Shape, Item};

fn entry(key: i64, value: Item) -> Entry {
    Entry { key: Item::Integer(key), value }
}

fn identity_schema() -> Vec<Slot> {
    vec![
        Slot { key: 0, name: "tag-id", shape: None, required: true },
        Slot { key: 1, name: "tag-version", shape: Some(Shape::Integer), required: false },
    ]
}

#[test]
fn fixed_bytes_accepts_exact_length() {
    let b = FixedBytes::<4>::from_slice(&[1, 2, 3, 4]).unwrap();
    assert_eq!(b.0, [1, 2, 3, 4]);
    assert_eq!(b.as_slice(), &[1, 2, 3, 4]);
    assert_eq!(b.to_vec(), vec![1, 2, 3, 4]);
    assert_eq!(b.encode(), Item::Bytes(vec![1, 2, 3, 4]));
}

#[test]
fn fixed_bytes_rejects_shorter_and_longer() {
    assert_eq!(
        FixedBytes::<4>::from_slice(&[1, 2, 3]),
        Err(CodecError::LengthMismatch { expected: 4, actual: 3 })
    );
    assert_eq!(
        FixedBytes::<4>::from_slice(&[1, 2, 3, 4, 5]),
        Err(CodecError::LengthMismatch { expected: 4, actual: 5 })
    );
    assert_eq!(
        FixedBytes::<0>::from_slice(&[9]),
        Err(CodecError::LengthMismatch { expected: 0, actual: 1 })
    );
}

#[test]
fn fixed_bytes_decode_round_trip() {
    let v = Item::Bytes(vec![7; 16]);
    let b = FixedBytes::<16>::decode(&v).unwrap();
    assert_eq!(b.encode(), v);
    assert_eq!(
        FixedBytes::<16>::decode(&Item::Bytes(vec![7; 15])),
        Err(CodecError::LengthMismatch { expected: 16, actual: 15 })
    );
    assert_eq!(
        FixedBytes::<16>::decode(&Item::Bytes(vec![7; 17])),
        Err(CodecError::LengthMismatch { expected: 16, actual: 17 })
    );
    assert_eq!(
        FixedBytes::<16>::decode(&Item::Text("x".to_string())),
        Err(CodecError::TypeMismatch { key: None, expected: Shape::Bytes })
    );
}

#[test]
fn non_empty_rejects_zero_elements() {
    assert_eq!(NonEmptyVec::<u8>::from_vec(vec![]), Err(CodecError::EmptyCollection));
}

#[test]
fn non_empty_keeps_order() {
    let mut c = NonEmptyVec::from_vec(vec![3u8, 1, 2]).unwrap();
    assert_eq!(c.len(), 3);
    assert_eq!(*c.first(), 3);
    assert_eq!(*c.get(1), 1);
    c.push(9);
    assert_eq!(c.as_slice(), &[3, 1, 2, 9]);
    assert_eq!(c.into_vec(), vec![3, 1, 2, 9]);
    let one = NonEmptyVec::one(5u8);
    assert_eq!(one.into_vec(), vec![5]);
}

#[test]
fn tag_is_emitted_and_checked() {
    let v = wrap(506, Item::Integer(1));
    assert_eq!(v, Item::Tag(506, Box::new(Item::Integer(1))));
    assert_eq!(unwrap(506, v), Ok(Item::Integer(1)));
    assert_eq!(
        unwrap(501, wrap(506, Item::Null)),
        Err(CodecError::TagMismatch { expected: 501, actual: 506 })
    );
    assert_eq!(
        unwrap(501, Item::Null),
        Err(CodecError::TypeMismatch { key: None, expected: Shape::Tag })
    );
}

#[test]
fn tagged_wrapper_holds_its_constant() {
    let t: Tagged<u8, 18> = Tagged::new(4);
    assert_eq!(t.tag(), 18);
    assert_eq!(*t.as_ref(), 4);
    assert_eq!(t.into_inner(), 4);
}

#[test]
fn check_reports_each_kind_of_failure() {
    let uuid = Item::Tag(37, Box::new(Item::Bytes(vec![0; 16])));
    assert_eq!(check(&Form::TaggedFixedBytes(37, 16), &uuid), None);
    assert_eq!(
        check(&Form::TaggedFixedBytes(37, 8), &uuid),
        Some(CodecError::LengthMismatch { expected: 8, actual: 16 })
    );
    assert_eq!(
        check(&Form::TaggedFixedBytes(38, 16), &uuid),
        Some(CodecError::TagMismatch { expected: 38, actual: 37 })
    );
    assert_eq!(
        check(&Form::Plain(Shape::Text), &uuid),
        Some(CodecError::TypeMismatch { key: None, expected: Shape::Text })
    );
    assert_eq!(check(&Form::Tagged(37, Shape::Bytes), &uuid), None);
    assert_eq!(
        check(&Form::Tagged(37, Shape::Text), &uuid),
        Some(CodecError::TypeMismatch { key: None, expected: Shape::Text })
    );
    assert_eq!(check(&Form::FixedBytes(2), &Item::Bytes(vec![1, 2])), None);
    assert_eq!(
        check(&Form::FixedBytes(2), &Item::Null),
        Some(CodecError::TypeMismatch { key: None, expected: Shape::Bytes })
    );
}

#[test]
fn resolve_is_independent_of_candidate_order() {
    let text = Item::Text("example-tag-id".to_string());
    let a = vec![Form::Plain(Shape::Text), Form::TaggedFixedBytes(37, 16)];
    let b = vec![Form::TaggedFixedBytes(37, 16), Form::Plain(Shape::Text)];
    assert_eq!(resolve(&a, &text), Ok(0));
    assert_eq!(resolve(&b, &text), Ok(1));
    let uuid = Item::Tag(37, Box::new(Item::Bytes(vec![0; 16])));
    assert_eq!(resolve(&a, &uuid), Ok(1));
    assert_eq!(resolve(&b, &uuid), Ok(0));
}

#[test]
fn resolve_takes_the_first_of_two_matches() {
    let forms = vec![Form::Plain(Shape::Bytes), Form::FixedBytes(2)];
    assert_eq!(resolve(&forms, &Item::Bytes(vec![1, 2])), Ok(0));
}

#[test]
fn resolve_lists_every_failure() {
    let forms = vec![Form::Plain(Shape::Text), Form::TaggedFixedBytes(37, 16), Form::FixedBytes(3)];
    assert_eq!(
        resolve(&forms, &Item::Bytes(vec![1])),
        Err(CodecError::NoMatchingVariant(vec![
            CodecError::TypeMismatch { key: None, expected: Shape::Text },
            CodecError::TypeMismatch { key: None, expected: Shape::Tag },
            CodecError::LengthMismatch { expected: 3, actual: 1 },
        ]))
    );
    assert_eq!(resolve(&vec![], &Item::Null), Err(CodecError::NoMatchingVariant(vec![])));
}

#[test]
fn find_slot_knows_reserved_keys_only() {
    let schema = identity_schema();
    assert_eq!(find_slot(&schema, &Item::Integer(1)), Some(1));
    assert_eq!(find_slot(&schema, &Item::Integer(0)), Some(0));
    assert_eq!(find_slot(&schema, &Item::Integer(-1)), None);
    assert_eq!(find_slot(&schema, &Item::Text("1".to_string())), None);
}

#[test]
fn record_routes_entries() {
    let schema = identity_schema();
    let entries = vec![
        entry(-7, Item::Bytes(vec![1, 2])),
        entry(1, Item::Integer(1)),
        entry(0, Item::Text("id".to_string())),
        Entry { key: Item::Text("note".to_string()), value: Item::Bool(true) },
    ];
    let record = decode_record(&schema, entries).unwrap();
    assert_eq!(
        record,
        Record {
            slots: vec![Some(Item::Text("id".to_string())), Some(Item::Integer(1))],
            extension: Some(vec![
                entry(-7, Item::Bytes(vec![1, 2])),
                Entry { key: Item::Text("note".to_string()), value: Item::Bool(true) },
            ]),
        }
    );
    let out = encode_record(&schema, record);
    assert_eq!(
        out,
        vec![
            entry(0, Item::Text("id".to_string())),
            entry(1, Item::Integer(1)),
            entry(-7, Item::Bytes(vec![1, 2])),
            Entry { key: Item::Text("note".to_string()), value: Item::Bool(true) },
        ]
    );
}

#[test]
fn record_without_unknown_keys_has_no_bucket() {
    let schema = identity_schema();
    let record = decode_record(&schema, vec![entry(0, Item::Text("id".to_string()))]).unwrap();
    assert_eq!(record.extension, None);
    assert_eq!(record.slots, vec![Some(Item::Text("id".to_string())), None]);
    assert_eq!(encode_record(&schema, record), vec![entry(0, Item::Text("id".to_string()))]);
}

#[test]
fn record_round_trip_keeps_extension_entry() {
    let schema = identity_schema();
    let unknown = entry(1000, Item::Array(vec![Item::Integer(-3), Item::Null]));
    let entries = vec![entry(0, Item::Text("id".to_string())), unknown];
    let first = encode_record(&schema, decode_record(&schema, entries).unwrap());
    assert_eq!(first[1], entry(1000, Item::Array(vec![Item::Integer(-3), Item::Null])));
    let second = encode_record(&schema, decode_record(&schema, first).unwrap());
    assert_eq!(
        second,
        vec![
            entry(0, Item::Text("id".to_string())),
            entry(1000, Item::Array(vec![Item::Integer(-3), Item::Null])),
        ]
    );
}

#[test]
fn record_failures() {
    let schema = identity_schema();
    assert_eq!(
        decode_record(&schema, vec![entry(1, Item::Integer(1))]),
        Err(CodecError::MissingField(0))
    );
    assert_eq!(
        decode_record(&schema, vec![entry(0, Item::Null), entry(0, Item::Null)]),
        Err(CodecError::DuplicateKey(0))
    );
    assert_eq!(
        decode_record(&schema, vec![entry(1, Item::Text("1".to_string()))]),
        Err(CodecError::TypeMismatch { key: Some(1), expected: Shape::Integer })
    );
    assert_eq!(decode_record(&schema, vec![]), Err(CodecError::MissingField(0)));
}

#[test]
fn shape_of_each_value() {
    assert_eq!(Item::Integer(0).shape(), Shape::Integer);
    assert_eq!(Item::Bytes(vec![]).shape(), Shape::Bytes);
    assert_eq!(Item::Text(String::new()).shape(), Shape::Text);
    assert_eq!(Item::Array(vec![]).shape(), Shape::Array);
    assert_eq!(Item::Dict(vec![]).shape(), Shape::Dict);
    assert_eq!(Item::Tag(1, Box::new(Item::Null)).shape(), Shape::Tag);
    assert_eq!(Item::Bool(false).shape(), Shape::Bool);
    assert_eq!(Item::Null.shape(), Shape::Null);
}

#[test]
fn triples_error_messages() {
    assert_eq!(TriplesError::InvalidIpAddrType.message(), "invalid IP address type");
    assert_eq!(
        TriplesError::EmptyMeasurementValuesMap.message(),
        "a MeasurementValuesMap must have at least one non-empty field"
    );
    assert_eq!(
        TriplesError::EmptyEnvironmentMap.message(),
        "an EnvironmentMap must have at least one non-empty field"
    );
    assert_eq!(
        TriplesError::EmptyClassMap.message(),
        "a ClassMap must have at least one non-empty field"
    );
    assert_eq!(
        TriplesError::EmptyTripleRecordCondition.message(),
        "a TripleRecord must have at least one non-empty field"
    );
    assert_eq!(TriplesError::Unknown.message(), "unknown TriplesError encountered");
}
