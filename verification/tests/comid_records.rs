use corim_core::codec::{decode_list, encode_list, Codec};
use corim_core::comid::{
    ComidEntityMap, ComidRoleTypeChoice, ConciseMidTag, LinkedTagMap, TagIdTypeChoice,
    TagIdentityMap, TagRelTypeChoice, TaggedConciseMidTag, TriplesMap, TriplesMapBuilder,
};
use corim_core::corim::{ConciseTagTypeChoice, CorimRoleTypeChoice};
use corim_core::error::{CodecError, TriplesError};
use corim_core::fixed_bytes::FixedBytes;
use corim_core::non_empty::NonEmptyVec;
use corim_core::tagged::Tagged;
use corim_core::triples::{
    copy_bytes, same_bytes, same_optional_bytes, EndorsedTripleRecord, EnvironmentMap,
    MeasuredElementTypeChoice, MeasurementMap, MeasurementValuesMap, RawValueType,
    ReferenceTripleRecord,
};
use corim_core::value::{Entry, Shape, Item};

fn entry(key: i64, value: Item) -> Entry {
    Entry { key: Item::Integer(key), value }
}

fn text(s: &str) -> Item {
    Item::Text(s.to_string())
}

fn environment(class: &[u8]) -> EnvironmentMap {
    EnvironmentMap::new(Some(class.to_vec()), None, None).unwrap()
}

fn raw_measurement(name: &str, bytes: &[u8]) -> MeasurementMap {
    MeasurementMap::of_raw_bytes(MeasuredElementTypeChoice::Tstr(name.to_string()), bytes.to_vec())
}

fn example_tag() -> ConciseMidTag {
    let reference = ReferenceTripleRecord {
        ref_env: environment(&[1, 2, 3]),
        ref_claims: NonEmptyVec::one(raw_measurement("firmware", &[0xde, 0xad])),
    };
    ConciseMidTag {
        language: None,
        tag_identity: TagIdentityMap {
            tag_id: TagIdTypeChoice::from_str("example-tag-id"),
            tag_version: Some(1),
        },
        entities: Some(NonEmptyVec::one(ComidEntityMap {
            entity_name: "Example Corp".to_string(),
            reg_id: None,
            role: NonEmptyVec::one(ComidRoleTypeChoice::TagCreator),
            extension: None,
        })),
        linked_tags: None,
        triples: TriplesMapBuilder::new()
            .reference_triples(NonEmptyVec::one(reference))
            .build()
            .unwrap(),
        extension: None,
    }
}

fn example_encoding() -> Item {
    let measurement = Item::Dict(vec![
        entry(0, text("firmware")),
        entry(
            1,
            Item::Dict(vec![entry(
                4,
                Item::Tag(560, Box::new(Item::Bytes(vec![0xde, 0xad]))),
            )]),
        ),
    ]);
    let triple = Item::Array(vec![
        Item::Dict(vec![entry(0, Item::Bytes(vec![1, 2, 3]))]),
        Item::Array(vec![measurement]),
    ]);
    Item::Tag(
        506,
        Box::new(Item::Dict(vec![
            entry(
                1,
                Item::Dict(vec![entry(0, text("example-tag-id")), entry(1, Item::Integer(1))]),
            ),
            entry(
                2,
                Item::Array(vec![Item::Dict(vec![
                    entry(31, text("Example Corp")),
                    entry(33, Item::Array(vec![Item::Integer(0)])),
                ])]),
            ),
            entry(4, Item::Dict(vec![entry(0, Item::Array(vec![triple]))])),
        ])),
    )
}

#[test]
fn module_identifier_end_to_end() {
    let encoded = TaggedConciseMidTag::new(example_tag()).encode();
    assert_eq!(encoded, example_encoding());
    match &encoded {
        Item::Tag(tag, inner) => {
            assert_eq!(*tag, 506);
            match &**inner {
                Item::Dict(entries) => {
                    let keys: Vec<&Item> = entries.iter().map(|e| &e.key).collect();
                    assert_eq!(
                        keys,
                        vec![&Item::Integer(1), &Item::Integer(2), &Item::Integer(4)]
                    );
                }
                _ => panic!("the record is a map"),
            }
        }
        _ => panic!("the record travels under a tag"),
    }
    let decoded = TaggedConciseMidTag::decode(encoded).unwrap();
    assert_eq!(decoded.tag(), 506);
    assert_eq!(decoded.into_inner(), example_tag());
}

#[test]
fn module_identifier_rejects_other_tag() {
    let inner = example_tag().encode();
    assert_eq!(
        TaggedConciseMidTag::decode(Item::Tag(501, Box::new(inner))),
        Err(CodecError::TagMismatch { expected: 506, actual: 501 })
    );
    assert_eq!(
        TaggedConciseMidTag::decode(example_tag().encode()),
        Err(CodecError::TypeMismatch { key: None, expected: Shape::Tag })
    );
}

#[test]
fn module_identifier_keeps_extension_entries() {
    let mut tag = example_tag();
    tag.language = Some("en".to_string());
    tag.extension = Some(vec![entry(-1, Item::Bytes(vec![9, 9])), entry(77, Item::Null)]);
    let encoded = tag.encode();
    match &encoded {
        Item::Dict(entries) => {
            assert_eq!(entries.len(), 6);
            assert_eq!(entries[0], entry(0, text("en")));
            assert_eq!(entries[4], entry(-1, Item::Bytes(vec![9, 9])));
            assert_eq!(entries[5], entry(77, Item::Null));
        }
        _ => panic!("the record is a map"),
    }
    let decoded = ConciseMidTag::decode(encoded).unwrap();
    assert_eq!(
        decoded.extension,
        Some(vec![entry(-1, Item::Bytes(vec![9, 9])), entry(77, Item::Null)])
    );
    assert_eq!(decoded.language, Some("en".to_string()));
}

#[test]
fn module_identifier_missing_and_duplicate_fields() {
    assert_eq!(
        ConciseMidTag::decode(Item::Dict(vec![entry(
            1,
            Item::Dict(vec![entry(0, text("id"))])
        )])),
        Err(CodecError::MissingField(4))
    );
    assert_eq!(
        ConciseMidTag::decode(Item::Dict(vec![entry(0, text("en")), entry(0, text("fr"))])),
        Err(CodecError::DuplicateKey(0))
    );
    assert_eq!(
        ConciseMidTag::decode(Item::Dict(vec![entry(1, text("id"))])),
        Err(CodecError::TypeMismatch { key: Some(1), expected: Shape::Dict })
    );
    assert_eq!(
        ConciseMidTag::decode(Item::Null),
        Err(CodecError::TypeMismatch { key: None, expected: Shape::Dict })
    );
}

#[test]
fn identifier_takes_either_shape() {
    let uuid = Item::Tag(37, Box::new(Item::Bytes(vec![5; 16])));
    assert_eq!(
        TagIdTypeChoice::decode(Item::Tag(37, Box::new(Item::Bytes(vec![5; 16])))),
        Ok(TagIdTypeChoice::Uuid(FixedBytes([5; 16])))
    );
    assert_eq!(TagIdTypeChoice::Uuid(FixedBytes([5; 16])).encode(), uuid);
    assert_eq!(
        TagIdTypeChoice::decode(text("abc")),
        Ok(TagIdTypeChoice::Tstr("abc".to_string()))
    );
    assert_eq!(TagIdTypeChoice::from_str("abc").encode(), text("abc"));
}

#[test]
fn identifier_of_no_shape_lists_both_failures() {
    assert_eq!(
        TagIdTypeChoice::decode(Item::Tag(37, Box::new(Item::Bytes(vec![5; 15])))),
        Err(CodecError::NoMatchingVariant(vec![
            CodecError::TypeMismatch { key: None, expected: Shape::Text },
            CodecError::LengthMismatch { expected: 16, actual: 15 },
        ]))
    );
    assert_eq!(
        TagIdTypeChoice::decode(Item::Integer(4)),
        Err(CodecError::NoMatchingVariant(vec![
            CodecError::TypeMismatch { key: None, expected: Shape::Text },
            CodecError::TypeMismatch { key: None, expected: Shape::Tag },
        ]))
    );
}

#[test]
fn identity_version_must_fit() {
    let ok = Item::Dict(vec![entry(1, Item::Integer(4294967295)), entry(0, text("id"))]);
    assert_eq!(
        TagIdentityMap::decode(ok),
        Ok(TagIdentityMap { tag_id: TagIdTypeChoice::from_str("id"), tag_version: Some(u32::MAX) })
    );
    let big = Item::Dict(vec![entry(0, text("id")), entry(1, Item::Integer(4294967296))]);
    assert_eq!(
        TagIdentityMap::decode(big),
        Err(CodecError::TypeMismatch { key: None, expected: Shape::Integer })
    );
    let negative = Item::Dict(vec![entry(0, text("id")), entry(1, Item::Integer(-1))]);
    assert_eq!(
        TagIdentityMap::decode(negative),
        Err(CodecError::TypeMismatch { key: None, expected: Shape::Integer })
    );
}

#[test]
fn roles_and_relations_by_number() {
    assert_eq!(ComidRoleTypeChoice::TagCreator.encode(), Item::Integer(0));
    assert_eq!(ComidRoleTypeChoice::Creator.encode(), Item::Integer(1));
    assert_eq!(ComidRoleTypeChoice::Maintainer.encode(), Item::Integer(2));
    assert_eq!(ComidRoleTypeChoice::decode(Item::Integer(2)), Ok(ComidRoleTypeChoice::Maintainer));
    assert_eq!(
        ComidRoleTypeChoice::decode(Item::Integer(3)),
        Err(CodecError::NoMatchingVariant(vec![]))
    );
    assert_eq!(TagRelTypeChoice::Replaces.encode(), Item::Integer(1));
    assert_eq!(TagRelTypeChoice::decode(Item::Integer(0)), Ok(TagRelTypeChoice::Supplements));
    assert_eq!(
        TagRelTypeChoice::decode(Item::Integer(2)),
        Err(CodecError::NoMatchingVariant(vec![]))
    );
    assert_eq!(CorimRoleTypeChoice::ManifestCreator.code(), 1);
    assert_eq!(CorimRoleTypeChoice::ManifestSigner.code(), 2);
    assert_eq!(CorimRoleTypeChoice::from_code(2), Ok(CorimRoleTypeChoice::ManifestSigner));
    assert_eq!(CorimRoleTypeChoice::from_code(0), Err(CodecError::NoMatchingVariant(vec![])));
}

#[test]
fn linked_tag_round_trip() {
    let link = LinkedTagMap {
        linked_tag_id: TagIdTypeChoice::Uuid(FixedBytes([7; 16])),
        tag_rel: TagRelTypeChoice::Replaces,
    };
    let encoded = link.encode();
    assert_eq!(
        encoded,
        Item::Dict(vec![
            entry(0, Item::Tag(37, Box::new(Item::Bytes(vec![7; 16])))),
            entry(1, Item::Integer(1)),
        ])
    );
    assert_eq!(
        LinkedTagMap::decode(encoded),
        Ok(LinkedTagMap {
            linked_tag_id: TagIdTypeChoice::Uuid(FixedBytes([7; 16])),
            tag_rel: TagRelTypeChoice::Replaces,
        })
    );
    assert_eq!(
        LinkedTagMap::decode(Item::Dict(vec![entry(0, text("x"))])),
        Err(CodecError::MissingField(1))
    );
}

#[test]
fn list_codec_refuses_empty_array() {
    assert_eq!(decode_list::<String>(Item::Array(vec![])), Err(CodecError::EmptyCollection));
    let list = decode_list::<String>(Item::Array(vec![text("b"), text("a")])).unwrap();
    assert_eq!(list.as_slice(), &["b".to_string(), "a".to_string()]);
    assert_eq!(encode_list(list), Item::Array(vec![text("b"), text("a")]));
    assert_eq!(
        decode_list::<String>(Item::Array(vec![text("b"), Item::Null])),
        Err(CodecError::TypeMismatch { key: None, expected: Shape::Text })
    );
    assert_eq!(
        decode_list::<String>(Item::Null),
        Err(CodecError::TypeMismatch { key: None, expected: Shape::Array })
    );
}

#[test]
fn builder_without_slots_fails() {
    assert_eq!(TriplesMapBuilder::new().build(), Err(CodecError::EmptyRecord));
    assert_eq!(
        TriplesMap::decode(Item::Dict(vec![])),
        Err(CodecError::EmptyRecord)
    );
}

#[test]
fn builder_with_one_slot_succeeds() {
    let one = || NonEmptyVec::one(Item::Integer(1));
    let built = TriplesMapBuilder::new().identity_triples(one()).build().unwrap();
    assert_eq!(built, TriplesMap { identity_triples: Some(one()), ..TriplesMap::default() });
    let built = TriplesMapBuilder::new().attest_key_triples(one()).build().unwrap();
    assert_eq!(built, TriplesMap { attest_key_triples: Some(one()), ..TriplesMap::default() });
    let built = TriplesMapBuilder::new().dependency_triples(one()).build().unwrap();
    assert_eq!(built, TriplesMap { dependency_triples: Some(one()), ..TriplesMap::default() });
    let built = TriplesMapBuilder::new().membership_triples(one()).build().unwrap();
    assert_eq!(built, TriplesMap { membership_triples: Some(one()), ..TriplesMap::default() });
    let built = TriplesMapBuilder::new().coswid_triples(one()).build().unwrap();
    assert_eq!(built, TriplesMap { coswid_triples: Some(one()), ..TriplesMap::default() });
    let built =
        TriplesMapBuilder::new().conditional_endorsement_series_triples(one()).build().unwrap();
    assert_eq!(
        built,
        TriplesMap { conditional_endorsement_series_triples: Some(one()), ..TriplesMap::default() }
    );
    let built = TriplesMapBuilder::new().conditional_endorsement_triples(one()).build().unwrap();
    assert_eq!(
        built,
        TriplesMap { conditional_endorsement_triples: Some(one()), ..TriplesMap::default() }
    );
    let built = TriplesMapBuilder::new().extension(vec![entry(-1, Item::Null)]).build().unwrap();
    assert_eq!(
        built,
        TriplesMap { extension: Some(vec![entry(-1, Item::Null)]), ..TriplesMap::default() }
    );
    let endorsed = || {
        NonEmptyVec::one(EndorsedTripleRecord {
            condition: environment(&[1]),
            endorsement: NonEmptyVec::one(raw_measurement("a", &[1])),
        })
    };
    let built = TriplesMapBuilder::new().endorsed_triples(endorsed()).build().unwrap();
    assert_eq!(built, TriplesMap { endorsed_triples: Some(endorsed()), ..TriplesMap::default() });
}

#[test]
fn builder_later_setter_replaces_earlier() {
    let built = TriplesMapBuilder::new()
        .coswid_triples(NonEmptyVec::one(Item::Integer(1)))
        .coswid_triples(NonEmptyVec::one(Item::Integer(2)))
        .build()
        .unwrap();
    assert_eq!(built.coswid_triples, Some(NonEmptyVec::one(Item::Integer(2))));
}

#[test]
fn triples_map_uses_its_reserved_keys() {
    let map = TriplesMapBuilder::new()
        .conditional_endorsement_triples(NonEmptyVec::one(Item::Integer(10)))
        .conditional_endorsement_series_triples(NonEmptyVec::one(Item::Integer(8)))
        .identity_triples(NonEmptyVec::one(Item::Integer(2)))
        .build()
        .unwrap();
    let encoded = map.encode();
    assert_eq!(
        encoded,
        Item::Dict(vec![
            entry(2, Item::Array(vec![Item::Integer(2)])),
            entry(8, Item::Array(vec![Item::Integer(8)])),
            entry(10, Item::Array(vec![Item::Integer(10)])),
        ])
    );
    let decoded = TriplesMap::decode(encoded).unwrap();
    assert_eq!(decoded.identity_triples, Some(NonEmptyVec::one(Item::Integer(2))));
    assert_eq!(
        TriplesMap::decode(Item::Dict(vec![entry(2, Item::Array(vec![]))])),
        Err(CodecError::EmptyCollection)
    );
}

#[test]
fn add_reference_to_empty_record_list() {
    let mut tag = example_tag();
    tag.triples.reference_triples = None;
    tag.add_reference_raw_value(
        &environment(&[4]),
        MeasuredElementTypeChoice::Uint(7),
        vec![1, 2],
    );
    let records = tag.triples.reference_triples.unwrap().into_vec();
    assert_eq!(records.len(), 1);
    assert_eq!(records[0].ref_env, environment(&[4]));
    assert_eq!(
        records[0].ref_claims.as_slice(),
        &[MeasurementMap {
            mkey: Some(MeasuredElementTypeChoice::Uint(7)),
            mval: MeasurementValuesMap {
                svn: None,
                raw: Some(RawValueType { raw_value: Tagged::new(vec![1, 2]), raw_value_mask: None }),
            },
            authorized_by: None,
        }]
    );
}

#[test]
fn add_reference_joins_matching_environment() {
    let mut tag = example_tag();
    tag.add_reference_raw_value(
        &environment(&[9]),
        MeasuredElementTypeChoice::Tstr("other".to_string()),
        vec![3],
    );
    tag.add_reference_raw_value(
        &environment(&[1, 2, 3]),
        MeasuredElementTypeChoice::Tstr("bootloader".to_string()),
        vec![0xbe, 0xef],
    );
    let records = tag.triples.reference_triples.as_ref().unwrap().as_slice();
    assert_eq!(records.len(), 2);
    assert_eq!(
        records[0].ref_claims.as_slice(),
        &[raw_measurement("firmware", &[0xde, 0xad]), raw_measurement("bootloader", &[0xbe, 0xef])]
    );
    assert_eq!(records[1].ref_env, environment(&[9]));
    assert_eq!(records[1].ref_claims.as_slice(), &[raw_measurement("other", &[3])]);
    assert_eq!(tag.tag_identity, example_tag().tag_identity);
    assert_eq!(tag.entities, example_tag().entities);
    assert_eq!(tag.triples.endorsed_triples, None);
}

#[test]
fn add_endorsement_joins_or_appends() {
    let mut tag = example_tag();
    tag.add_endorsement_raw_value(
        &environment(&[1]),
        MeasuredElementTypeChoice::Uint(1),
        vec![1],
    );
    tag.add_endorsement_raw_value(
        &environment(&[2]),
        MeasuredElementTypeChoice::Uint(2),
        vec![2],
    );
    tag.add_endorsement_raw_value(
        &environment(&[1]),
        MeasuredElementTypeChoice::Uint(3),
        vec![3],
    );
    let records = tag.triples.endorsed_triples.as_ref().unwrap().as_slice();
    assert_eq!(records.len(), 2);
    assert_eq!(records[0].condition, environment(&[1]));
    assert_eq!(records[0].endorsement.len(), 2);
    assert_eq!(
        records[0].endorsement.get(1).mkey,
        Some(MeasuredElementTypeChoice::Uint(3))
    );
    assert_eq!(records[1].endorsement.len(), 1);
    assert_eq!(tag.triples.reference_triples, example_tag().triples.reference_triples);
    let encoded = tag.encode();
    let decoded = ConciseMidTag::decode(encoded).unwrap();
    assert_eq!(decoded.triples.endorsed_triples.unwrap().len(), 2);
}

#[test]
fn environment_and_values_need_a_field() {
    assert_eq!(EnvironmentMap::new(None, None, None), Err(TriplesError::EmptyEnvironmentMap));
    assert_eq!(
        MeasurementValuesMap::new(None, None),
        Err(TriplesError::EmptyMeasurementValuesMap)
    );
    assert_eq!(
        MeasurementValuesMap::new(Some(3), None),
        Ok(MeasurementValuesMap { svn: Some(3), raw: None })
    );
    assert_eq!(EnvironmentMap::decode(Item::Dict(vec![])), Err(CodecError::EmptyRecord));
    assert_eq!(MeasurementValuesMap::decode(Item::Dict(vec![])), Err(CodecError::EmptyRecord));
    assert_eq!(
        MeasurementValuesMap::decode(Item::Dict(vec![entry(5, Item::Bytes(vec![1]))])),
        Err(CodecError::MissingField(4))
    );
}

#[test]
fn environment_equality_and_copy() {
    let a = EnvironmentMap::new(Some(vec![1]), None, Some(vec![2, 3])).unwrap();
    let b = a.duplicate();
    assert_eq!(a, b);
    assert!(a.same_as(&b));
    assert!(!a.same_as(&environment(&[1])));
    assert!(same_bytes(&vec![1, 2], &vec![1, 2]));
    assert!(!same_bytes(&vec![1, 2], &vec![1, 3]));
    assert!(!same_bytes(&vec![1, 2], &vec![1]));
    assert!(same_optional_bytes(&None, &None));
    assert!(!same_optional_bytes(&None, &Some(vec![])));
    assert_eq!(copy_bytes(&vec![4, 5, 6]), vec![4, 5, 6]);
}

#[test]
fn measured_element_takes_either_shape() {
    assert_eq!(
        MeasuredElementTypeChoice::decode(Item::Integer(5)),
        Ok(MeasuredElementTypeChoice::Uint(5))
    );
    assert_eq!(
        MeasuredElementTypeChoice::decode(text("n")),
        Ok(MeasuredElementTypeChoice::Tstr("n".to_string()))
    );
    assert_eq!(
        MeasuredElementTypeChoice::decode(Item::Bool(true)),
        Err(CodecError::NoMatchingVariant(vec![
            CodecError::TypeMismatch { key: None, expected: Shape::Text },
            CodecError::TypeMismatch { key: None, expected: Shape::Integer },
        ]))
    );
}

#[test]
fn triple_is_an_array_of_two() {
    assert_eq!(
        ReferenceTripleRecord::decode(Item::Array(vec![Item::Null])),
        Err(CodecError::LengthMismatch { expected: 2, actual: 1 })
    );
    assert_eq!(
        EndorsedTripleRecord::decode(Item::Array(vec![
            Item::Dict(vec![entry(1, Item::Bytes(vec![1]))]),
            Item::Array(vec![]),
        ])),
        Err(CodecError::EmptyCollection)
    );
}

#[test]
fn manifest_tags() {
    let mid = ConciseTagTypeChoice::Mid(Tagged::new(example_tag()));
    assert_eq!(mid.tag(), 506);
    assert_eq!(ConciseTagTypeChoice::Swid(Tagged::new(Item::Null)).tag(), 505);
    assert_eq!(ConciseTagTypeChoice::Tl(Tagged::new(Item::Null)).tag(), 508);
}
