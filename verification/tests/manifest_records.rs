use corim_core::codec::{decode_bounded, Codec};
use corim_core::comid::{TagIdTypeChoice, TriplesMapBuilder};
use corim_core::corim::{
    CorimEntityMap, CorimIdTypeChoice, CorimMapExtension, CorimMetaMap, CorimRoleTypeChoice,
    CorimSignerMap, ProtectedCorimHeaderMap, ValidityMap,
};
use corim_core::error::CodecError;
use corim_core::fixed_bytes::FixedBytes;
use corim_core::tagged::Tagged;
use corim_core::value::{within_depth, Entry, Item, Shape};

fn entry(key: i64, value: Item) -> Entry {
    Entry { key: Item::Integer(key), value }
}

fn text(s: &str) -> Item {
    Item::Text(s.to_string())
}

fn header() -> ProtectedCorimHeaderMap {
    ProtectedCorimHeaderMap {
        alg: -7,
        content_type: "application/rim+cbor".to_string(),
        kid: vec![1, 2, 3],
        corim_meta: CorimMetaMap {
            signer: CorimSignerMap {
                signer_name: "Example Signer".to_string(),
                signer_uri: None,
                extension: Some(vec![entry(-5, Item::Bool(true))]),
            },
            signature_validity: Some(ValidityMap { not_before: None, not_after: 1700000000 }),
        },
        cose_map: None,
    }
}

#[test]
fn protected_header_round_trip() {
    let encoded = header().encode();
    assert_eq!(
        encoded,
        Item::Dict(vec![
            entry(1, Item::Integer(-7)),
            entry(3, text("application/rim+cbor")),
            entry(4, Item::Bytes(vec![1, 2, 3])),
            entry(
                8,
                Item::Dict(vec![
                    entry(
                        0,
                        Item::Dict(vec![
                            entry(0, text("Example Signer")),
                            entry(-5, Item::Bool(true)),
                        ])
                    ),
                    entry(1, Item::Dict(vec![entry(1, Item::Integer(1700000000))])),
                ])
            ),
        ])
    );
    assert_eq!(ProtectedCorimHeaderMap::decode(encoded), Ok(header()));
}

#[test]
fn protected_header_needs_every_field() {
    assert_eq!(
        ProtectedCorimHeaderMap::decode(Item::Dict(vec![
            entry(1, Item::Integer(-7)),
            entry(3, text("t")),
            entry(8, Item::Dict(vec![])),
        ])),
        Err(CodecError::MissingField(4))
    );
    assert_eq!(
        ProtectedCorimHeaderMap::decode(Item::Dict(vec![
            entry(1, Item::Integer(-7)),
            entry(3, text("t")),
            entry(4, Item::Bytes(vec![])),
            entry(8, Item::Dict(vec![])),
        ])),
        Err(CodecError::MissingField(0))
    );
}

#[test]
fn validity_round_trip() {
    let v = ValidityMap { not_before: Some(-3), not_after: 9 };
    let encoded = v.encode();
    assert_eq!(
        encoded,
        Item::Dict(vec![entry(0, Item::Integer(-3)), entry(1, Item::Integer(9))])
    );
    assert_eq!(ValidityMap::decode(encoded), Ok(v));
    assert_eq!(
        ValidityMap::decode(Item::Dict(vec![entry(0, Item::Integer(1))])),
        Err(CodecError::MissingField(1))
    );
}

#[test]
fn manifest_entity_round_trip() {
    let e = CorimEntityMap {
        entity_name: "Example Corp".to_string(),
        reg_id: Some("https://example.com".to_string()),
        role: CorimRoleTypeChoice::ManifestCreator,
        extension: None,
    };
    let encoded = e.encode();
    assert_eq!(
        encoded,
        Item::Dict(vec![
            entry(0, text("Example Corp")),
            entry(1, text("https://example.com")),
            entry(2, Item::Integer(1)),
        ])
    );
    let back = CorimEntityMap::decode(encoded).unwrap();
    assert_eq!(back.role, CorimRoleTypeChoice::ManifestCreator);
    assert_eq!(back.reg_id, Some("https://example.com".to_string()));
    assert_eq!(
        CorimEntityMap::decode(Item::Dict(vec![
            entry(0, text("x")),
            entry(2, Item::Integer(3)),
        ])),
        Err(CodecError::NoMatchingVariant(vec![]))
    );
}

#[test]
fn nesting_is_counted_by_containers() {
    let flat = Item::Integer(1);
    assert!(within_depth(&flat, 0));
    let one = Item::Array(vec![Item::Integer(1)]);
    assert!(!within_depth(&one, 0));
    assert!(within_depth(&one, 1));
    let three = Item::Tag(
        1,
        Box::new(Item::Dict(vec![Entry {
            key: Item::Array(vec![Item::Null]),
            value: Item::Null,
        }])),
    );
    assert!(!within_depth(&three, 2));
    assert!(within_depth(&three, 3));
    let deep_value = Item::Dict(vec![entry(0, Item::Array(vec![Item::Array(vec![])]))]);
    assert!(!within_depth(&deep_value, 2));
    assert!(within_depth(&deep_value, 3));
    assert!(!within_depth(&Item::Array(vec![]), 0));
}

#[test]
fn bounded_decoding_refuses_deep_values() {
    let uuid = || Item::Tag(37, Box::new(Item::Bytes(vec![1; 16])));
    assert_eq!(
        decode_bounded::<TagIdTypeChoice>(uuid(), 0),
        Err(CodecError::MaxNestingExceeded)
    );
    assert_eq!(
        decode_bounded::<TagIdTypeChoice>(uuid(), 1),
        Ok(TagIdTypeChoice::Uuid(FixedBytes([1; 16])))
    );
    assert_eq!(
        decode_bounded::<String>(Item::Integer(1), 0),
        Err(CodecError::TypeMismatch { key: None, expected: Shape::Text })
    );
}

#[test]
fn generic_envelope_codec() {
    let t: Tagged<String, 32> = Tagged::new("u".to_string());
    assert_eq!(t.encode(), Item::Tag(32, Box::new(text("u"))));
    assert_eq!(
        Tagged::<String, 32>::decode(Item::Tag(32, Box::new(text("u")))),
        Ok(Tagged::new("u".to_string()))
    );
    assert_eq!(
        Tagged::<String, 32>::decode(Item::Tag(33, Box::new(text("u")))),
        Err(CodecError::TagMismatch { expected: 32, actual: 33 })
    );
    assert_eq!(
        Tagged::<String, 32>::decode(Item::Tag(32, Box::new(Item::Null))),
        Err(CodecError::TypeMismatch { key: None, expected: Shape::Text })
    );
    assert_eq!(
        FixedBytes::<2>::decode(&Item::Bytes(vec![1, 2])).map(|b| b.0),
        Ok([1, 2])
    );
}

#[test]
fn manifest_identifier_takes_either_shape() {
    assert_eq!(
        CorimIdTypeChoice::Tstr("Corim-Unique-Identifier-01".to_string()).encode(),
        text("Corim-Unique-Identifier-01")
    );
    assert_eq!(
        CorimIdTypeChoice::decode(Item::Tag(37, Box::new(Item::Bytes(vec![2; 16])))),
        Ok(CorimIdTypeChoice::Uuid(FixedBytes([2; 16])))
    );
    assert_eq!(
        CorimIdTypeChoice::Uuid(FixedBytes([2; 16])).encode(),
        Item::Tag(37, Box::new(Item::Bytes(vec![2; 16])))
    );
    assert_eq!(
        CorimIdTypeChoice::decode(Item::Bytes(vec![2; 16])),
        Err(CodecError::NoMatchingVariant(vec![
            CodecError::TypeMismatch { key: None, expected: Shape::Text },
            CodecError::TypeMismatch { key: None, expected: Shape::Tag },
        ]))
    );
}

#[test]
fn manifest_extension_is_tagged_bytes() {
    let e = CorimMapExtension { bytes: Tagged::new(vec![8, 9]) };
    assert_eq!(e.encode(), Item::Tag(560, Box::new(Item::Bytes(vec![8, 9]))));
    assert_eq!(
        CorimMapExtension::decode(Item::Tag(560, Box::new(Item::Bytes(vec![8, 9])))),
        Ok(CorimMapExtension { bytes: Tagged::new(vec![8, 9]) })
    );
    assert_eq!(
        CorimMapExtension::decode(Item::Tag(561, Box::new(Item::Bytes(vec![])))),
        Err(CodecError::TagMismatch { expected: 560, actual: 561 })
    );
}

#[test]
fn default_builder_has_collected_nothing() {
    assert_eq!(TriplesMapBuilder::default().build(), Err(CodecError::EmptyRecord));
}
