use crate::choice::{lemma_refusal_view, mismatch, refusals, resolve, Form};
use crate::codec::{
    decode_slot, encode_slot, lemma_slot_round_trip, pop_slot, slot_decoding, slot_encoding,
    slot_valid, Codec,
};
use crate::comid::{
    ComidEntityMap, ComidRoleTypeChoice, ConciseMidTag, LinkedTagMap, TagIdTypeChoice,
    TagIdentityMap, TagRelTypeChoice, TagVersionType, TriplesMap,
};
use crate::triples::{EndorsedTripleRecord, ReferenceTripleRecord};
use crate::non_empty::NonEmptyVec;
use crate::error::{failures_of, lemma_no_matching_view, CodecError, Failure};
use crate::fixed_bytes::FixedBytes;
use crate::record::{
    bucket_view, decode_record, decoded, distinct_keys, encode_record, encoded, fits, missing,
    unreserved, Record, RecordView, Slot,
};
use crate::record_laws::lemma_round_trip;
use crate::tagged::{wrap, wrapped};
use crate::value::{lemma_dict_view, Shape, Tree, Item};
use vstd::prelude::*;

verus! {

/// The tag under which a universally unique identifier travels.
pub const TAG_UUID: u64 = 37;

impl ComidRoleTypeChoice {
    /// The number that stands for each role on the wire.
    pub open spec fn code_of(self) -> i64 {
        match self {
            ComidRoleTypeChoice::TagCreator => 0,
            ComidRoleTypeChoice::Creator => 1,
            ComidRoleTypeChoice::Maintainer => 2,
        }
    }
}

impl Codec for ComidRoleTypeChoice {
    open spec fn valid(&self) -> bool {
        true
    }

    proof fn lemma_round_trip(&self) {
    }

    open spec fn encoding(&self) -> Tree {
        Tree::Integer(self.code_of())
    }

    open spec fn decoding(tree: Tree) -> Result<Tree, Failure> {
        match tree {
            Tree::Integer(code) => if 0 <= code <= 2 {
                Ok(tree)
            } else {
                Err(Failure::NoMatchingVariant(Seq::empty()))
            },
            _ => Err(Failure::TypeMismatch { key: None, expected: Shape::Integer }),
        }
    }

    fn encode(self) -> (r: Item) {
        match self {
            ComidRoleTypeChoice::TagCreator => Item::Integer(0),
            ComidRoleTypeChoice::Creator => Item::Integer(1),
            ComidRoleTypeChoice::Maintainer => Item::Integer(2),
        }
    }

    fn decode(value: Item) -> (r: Result<Self, CodecError>) {
        match value {
            Item::Integer(code) => {
                if code == 0 {
                    Ok(ComidRoleTypeChoice::TagCreator)
                } else if code == 1 {
                    Ok(ComidRoleTypeChoice::Creator)
                } else if code == 2 {
                    Ok(ComidRoleTypeChoice::Maintainer)
                } else {
                    let none: Vec<CodecError> = Vec::new();
                    proof {
                        lemma_no_matching_view(none);
                        assert(failures_of(none@) =~= Seq::<Failure>::empty());
                    }
                    Err(CodecError::NoMatchingVariant(none))
                }
            },
            _ => Err(CodecError::TypeMismatch { key: None, expected: Shape::Integer }),
        }
    }
}

impl TagRelTypeChoice {
    /// The number that stands for each relation on the wire.
    pub open spec fn code_of(self) -> i64 {
        match self {
            TagRelTypeChoice::Supplements => 0,
            TagRelTypeChoice::Replaces => 1,
        }
    }
}

impl Codec for TagRelTypeChoice {
    open spec fn valid(&self) -> bool {
        true
    }

    proof fn lemma_round_trip(&self) {
    }

    open spec fn encoding(&self) -> Tree {
        Tree::Integer(self.code_of())
    }

    open spec fn decoding(tree: Tree) -> Result<Tree, Failure> {
        match tree {
            Tree::Integer(code) => if 0 <= code <= 1 {
                Ok(tree)
            } else {
                Err(Failure::NoMatchingVariant(Seq::empty()))
            },
            _ => Err(Failure::TypeMismatch { key: None, expected: Shape::Integer }),
        }
    }

    fn encode(self) -> (r: Item) {
        match self {
            TagRelTypeChoice::Supplements => Item::Integer(0),
            TagRelTypeChoice::Replaces => Item::Integer(1),
        }
    }

    fn decode(value: Item) -> (r: Result<Self, CodecError>) {
        match value {
            Item::Integer(code) => {
                if code == 0 {
                    Ok(TagRelTypeChoice::Supplements)
                } else if code == 1 {
                    Ok(TagRelTypeChoice::Replaces)
                } else {
                    let none: Vec<CodecError> = Vec::new();
                    proof {
                        lemma_no_matching_view(none);
                        assert(failures_of(none@) =~= Seq::<Failure>::empty());
                    }
                    Err(CodecError::NoMatchingVariant(none))
                }
            },
            _ => Err(CodecError::TypeMismatch { key: None, expected: Shape::Integer }),
        }
    }
}

/// The forms of an identifier, in the order in which they are tried: text,
/// then sixteen bytes under the tag for unique identifiers.
pub open spec fn identifier_forms() -> Seq<Form> {
    seq![Form::Plain(Shape::Text), Form::TaggedFixedBytes(37, 16)]
}

/// What a tree decodes to as an identifier: itself when it has one of the
/// two forms, else the failures of both.
pub open spec fn identifier_decoding(tree: Tree) -> Result<Tree, Failure> {
    let forms = identifier_forms();
    if mismatch(forms[0], tree) is None || mismatch(forms[1], tree) is None {
        Ok(tree)
    } else {
        Err(
            Failure::NoMatchingVariant(
                seq![mismatch(forms[0], tree)->Some_0@, mismatch(forms[1], tree)->Some_0@],
            ),
        )
    }
}

impl Codec for TagIdTypeChoice {
    open spec fn valid(&self) -> bool {
        true
    }

    proof fn lemma_round_trip(&self) {
        match self {
            TagIdTypeChoice::Tstr(_) => {},
            TagIdTypeChoice::Uuid(bytes) => {
                assert(bytes@.len() == 16);
            },
        }
    }

    open spec fn encoding(&self) -> Tree {
        match self {
            TagIdTypeChoice::Tstr(text) => Tree::Text(text@),
            TagIdTypeChoice::Uuid(bytes) => wrapped(37, Tree::Bytes(bytes@)),
        }
    }

    open spec fn decoding(tree: Tree) -> Result<Tree, Failure> {
        identifier_decoding(tree)
    }

    /// The active variant's own encoding, with nothing added.
    fn encode(self) -> (r: Item) {
        match self {
            TagIdTypeChoice::Tstr(text) => Item::Text(text),
            TagIdTypeChoice::Uuid(bytes) => wrap(TAG_UUID, FixedBytes::encode(&bytes)),
        }
    }

    /// Settles on the variant by the value's structure alone.
    fn decode(value: Item) -> (r: Result<Self, CodecError>) {
        let mut forms: Vec<Form> = Vec::new();
        forms.push(Form::Plain(Shape::Text));
        forms.push(Form::TaggedFixedBytes(TAG_UUID, 16));
        proof {
            assert(forms@ =~= identifier_forms());
        }
        match resolve(&forms, &value) {
            Ok(at) => {
                match value {
                    Item::Text(text) => Ok(TagIdTypeChoice::Tstr(text)),
                    Item::Tag(_, inner) => match FixedBytes::<16>::decode(&*inner) {
                        Ok(bytes) => Ok(TagIdTypeChoice::Uuid(bytes)),
                        Err(e) => Err(e),
                    },
                    _ => Err(CodecError::EmptyRecord),
                }
            },
            Err(e) => {
                proof {
                    lemma_refusal_view(forms@, value@, e);
                    assert(refusals(forms@, value@) =~= seq![
                        mismatch(forms@[0], value@)->Some_0@,
                        mismatch(forms@[1], value@)->Some_0@,
                    ]);
                }
                Err(e)
            },
        }
    }
}

impl TagIdentityMap {
    /// The reserved keys of an identity: the identifier, which must be
    /// there, and the version.
    pub open spec fn slots() -> Seq<Slot> {
        seq![
            Slot { key: 0, name: "tag-id", shape: None, required: true },
            Slot { key: 1, name: "tag-version", shape: Some(Shape::Integer), required: false },
        ]
    }

    /// The reserved keys of an identity.
    pub fn schema() -> (r: Vec<Slot>)
        ensures
            r@ == Self::slots(),
            distinct_keys(r@),
    {
        let mut r: Vec<Slot> = Vec::new();
        r.push(Slot { key: 0, name: "tag-id", shape: None, required: true });
        r.push(Slot { key: 1, name: "tag-version", shape: Some(Shape::Integer), required: false });
        proof {
            assert(r@ =~= Self::slots());
        }
        r
    }

    /// The canonical form of a record that was read against the schema.
    pub open spec fn canonical(record: RecordView) -> Result<Tree, Failure> {
        match slot_decoding::<TagIdTypeChoice>(record.slots[0]) {
            Err(e) => Err(e),
            Ok(id) => match slot_decoding::<TagVersionType>(record.slots[1]) {
                Err(e) => Err(e),
                Ok(version) => Ok(
                    Tree::Dict(
                        encoded(
                            Self::slots(),
                            RecordView { slots: seq![id, version], extension: Seq::empty() },
                        ),
                    ),
                ),
            },
        }
    }
}

impl Codec for TagIdentityMap {
    open spec fn valid(&self) -> bool {
        self.tag_id.valid() && slot_valid(self.tag_version)
    }

    proof fn lemma_round_trip(&self) {
        let record = RecordView {
            slots: seq![Some(self.tag_id.encoding()), slot_encoding(self.tag_version)],
            extension: Seq::empty(),
        };
        assert(fits(Self::slots(), record));
        lemma_round_trip(Self::slots(), record);
        self.tag_id.lemma_round_trip();
        lemma_slot_round_trip(self.tag_version);
        assert(record.slots[0] == Some(self.tag_id.encoding()));
        assert(record.slots[1] == slot_encoding(self.tag_version));
        assert(Self::canonical(record) == Ok::<Tree, Failure>(
            Tree::Dict(encoded(Self::slots(), record)),
        ));
        assert(self.encoding() == Tree::Dict(encoded(Self::slots(), record)));
        assert(decoded(Self::slots(), encoded(Self::slots(), record)) == Ok::<
            RecordView,
            CodecError,
        >(record));
        assert(Self::decoding(Tree::Dict(encoded(Self::slots(), record))) == Self::canonical(
            record,
        ));
    }

    open spec fn encoding(&self) -> Tree {
        Tree::Dict(
            encoded(
                Self::slots(),
                RecordView {
                    slots: seq![Some(self.tag_id.encoding()), slot_encoding(self.tag_version)],
                    extension: Seq::empty(),
                },
            ),
        )
    }

    open spec fn decoding(tree: Tree) -> Result<Tree, Failure> {
        match tree {
            Tree::Dict(entries) => match decoded(Self::slots(), entries) {
                Err(e) => Err(e@),
                Ok(record) => Self::canonical(record),
            },
            _ => Err(Failure::TypeMismatch { key: None, expected: Shape::Dict }),
        }
    }

    fn encode(self) -> (r: Item) {
        let schema = Self::schema();
        let mut slots: Vec<Option<Item>> = Vec::new();
        slots.push(Some(self.tag_id.encode()));
        slots.push(encode_slot(self.tag_version));
        let record = Record { slots, extension: None };
        proof {
            assert(record@.slots =~= seq![
                Some(self.tag_id.encoding()),
                slot_encoding(self.tag_version),
            ]);
        }
        let entries = encode_record(&schema, record);
        proof {
            lemma_dict_view(entries);
        }
        Item::Dict(entries)
    }

    fn decode(value: Item) -> (r: Result<Self, CodecError>) {
        match value {
            Item::Dict(entries) => {
                proof {
                    lemma_dict_view(entries);
                }
                let schema = Self::schema();
                match decode_record(&schema, entries) {
                    Err(e) => Err(e),
                    Ok(record) => {
                        let ghost content = record@;
                        let mut slots = record.slots;
                        let version = pop_slot(&mut slots);
                        let id = pop_slot(&mut slots);
                        proof {
                            assert(!missing(Self::slots(), content.slots, 0));
                        }
                        match decode_slot::<TagIdTypeChoice>(id) {
                            Err(e) => Err(e),
                            Ok(None) => Err(CodecError::MissingField(0)),
                            Ok(Some(tag_id)) => match decode_slot::<TagVersionType>(version) {
                                Err(e) => Err(e),
                                Ok(tag_version) => Ok(TagIdentityMap { tag_id, tag_version }),
                            },
                        }
                    },
                }
            },
            _ => Err(CodecError::TypeMismatch { key: None, expected: Shape::Dict }),
        }
    }
}

impl LinkedTagMap {
    /// The reserved keys of a link: the other record's identifier and the
    /// relation to it, both of which must be there.
    pub open spec fn slots() -> Seq<Slot> {
        seq![
            Slot { key: 0, name: "linked-tag-id", shape: None, required: true },
            Slot { key: 1, name: "tag-rel", shape: Some(Shape::Integer), required: true },
        ]
    }

    /// The reserved keys of a link.
    pub fn schema() -> (r: Vec<Slot>)
        ensures
            r@ == Self::slots(),
            distinct_keys(r@),
    {
        let mut r: Vec<Slot> = Vec::new();
        r.push(Slot { key: 0, name: "linked-tag-id", shape: None, required: true });
        r.push(Slot { key: 1, name: "tag-rel", shape: Some(Shape::Integer), required: true });
        proof {
            assert(r@ =~= Self::slots());
        }
        r
    }

    /// The canonical form of a record that was read against the schema.
    pub open spec fn canonical(record: RecordView) -> Result<Tree, Failure> {
        match slot_decoding::<TagIdTypeChoice>(record.slots[0]) {
            Err(e) => Err(e),
            Ok(id) => match slot_decoding::<TagRelTypeChoice>(record.slots[1]) {
                Err(e) => Err(e),
                Ok(rel) => Ok(
                    Tree::Dict(
                        encoded(
                            Self::slots(),
                            RecordView { slots: seq![id, rel], extension: Seq::empty() },
                        ),
                    ),
                ),
            },
        }
    }
}

impl Codec for LinkedTagMap {
    open spec fn valid(&self) -> bool {
        self.linked_tag_id.valid() && self.tag_rel.valid()
    }

    proof fn lemma_round_trip(&self) {
        let record = RecordView {
            slots: seq![Some(self.linked_tag_id.encoding()), Some(self.tag_rel.encoding())],
            extension: Seq::empty(),
        };
        assert(fits(Self::slots(), record));
        lemma_round_trip(Self::slots(), record);
        self.linked_tag_id.lemma_round_trip();
        self.tag_rel.lemma_round_trip();
        assert(record.slots[0] == Some(self.linked_tag_id.encoding()));
        assert(record.slots[1] == Some(self.tag_rel.encoding()));
        assert(Self::canonical(record) == Ok::<Tree, Failure>(
            Tree::Dict(encoded(Self::slots(), record)),
        ));
        assert(self.encoding() == Tree::Dict(encoded(Self::slots(), record)));
        assert(decoded(Self::slots(), encoded(Self::slots(), record)) == Ok::<
            RecordView,
            CodecError,
        >(record));
        assert(Self::decoding(Tree::Dict(encoded(Self::slots(), record))) == Self::canonical(
            record,
        ));
    }

    open spec fn encoding(&self) -> Tree {
        Tree::Dict(
            encoded(
                Self::slots(),
                RecordView {
                    slots: seq![Some(self.linked_tag_id.encoding()), Some(self.tag_rel.encoding())],
                    extension: Seq::empty(),
                },
            ),
        )
    }

    open spec fn decoding(tree: Tree) -> Result<Tree, Failure> {
        match tree {
            Tree::Dict(entries) => match decoded(Self::slots(), entries) {
                Err(e) => Err(e@),
                Ok(record) => Self::canonical(record),
            },
            _ => Err(Failure::TypeMismatch { key: None, expected: Shape::Dict }),
        }
    }

    fn encode(self) -> (r: Item) {
        let schema = Self::schema();
        let mut slots: Vec<Option<Item>> = Vec::new();
        slots.push(Some(self.linked_tag_id.encode()));
        slots.push(Some(self.tag_rel.encode()));
        let record = Record { slots, extension: None };
        proof {
            assert(record@.slots =~= seq![
                Some(self.linked_tag_id.encoding()),
                Some(self.tag_rel.encoding()),
            ]);
        }
        let entries = encode_record(&schema, record);
        proof {
            lemma_dict_view(entries);
        }
        Item::Dict(entries)
    }

    fn decode(value: Item) -> (r: Result<Self, CodecError>) {
        match value {
            Item::Dict(entries) => {
                proof {
                    lemma_dict_view(entries);
                }
                let schema = Self::schema();
                let record = decode_record(&schema, entries)?;
                let ghost content = record@;
                let mut slots = record.slots;
                let rel = pop_slot(&mut slots);
                let id = pop_slot(&mut slots);
                proof {
                    assert(!missing(Self::slots(), content.slots, 0));
                    assert(!missing(Self::slots(), content.slots, 1));
                }
                let linked_tag_id = decode_slot::<TagIdTypeChoice>(id)?;
                let tag_rel = decode_slot::<TagRelTypeChoice>(rel)?;
                match (linked_tag_id, tag_rel) {
                    (Some(linked_tag_id), Some(tag_rel)) => Ok(
                        LinkedTagMap { linked_tag_id, tag_rel },
                    ),
                    _ => Err(CodecError::MissingField(0)),
                }
            },
            _ => Err(CodecError::TypeMismatch { key: None, expected: Shape::Dict }),
        }
    }
}

impl ComidEntityMap {
    /// The reserved keys of an entity: its name and its roles, which must
    /// be there, and its registration identifier.
    pub open spec fn slots() -> Seq<Slot> {
        seq![
            Slot { key: 31, name: "entity-name", shape: Some(Shape::Text), required: true },
            Slot { key: 32, name: "reg-id", shape: Some(Shape::Text), required: false },
            Slot { key: 33, name: "role", shape: Some(Shape::Array), required: true },
        ]
    }

    /// The reserved keys of an entity.
    pub fn schema() -> (r: Vec<Slot>)
        ensures
            r@ == Self::slots(),
            distinct_keys(r@),
    {
        let mut r: Vec<Slot> = Vec::new();
        r.push(Slot { key: 31, name: "entity-name", shape: Some(Shape::Text), required: true });
        r.push(Slot { key: 32, name: "reg-id", shape: Some(Shape::Text), required: false });
        r.push(Slot { key: 33, name: "role", shape: Some(Shape::Array), required: true });
        proof {
            assert(r@ =~= Self::slots());
        }
        r
    }

    /// The canonical form of a record that was read against the schema.
    pub open spec fn canonical(record: RecordView) -> Result<Tree, Failure> {
        match slot_decoding::<String>(record.slots[0]) {
            Err(e) => Err(e),
            Ok(name) => match slot_decoding::<String>(record.slots[1]) {
                Err(e) => Err(e),
                Ok(reg_id) => match slot_decoding::<NonEmptyVec<ComidRoleTypeChoice>>(
                    record.slots[2],
                ) {
                    Err(e) => Err(e),
                    Ok(role) => Ok(
                        Tree::Dict(
                            encoded(
                                Self::slots(),
                                RecordView {
                                    slots: seq![name, reg_id, role],
                                    extension: record.extension,
                                },
                            ),
                        ),
                    ),
                },
            },
        }
    }
}

impl Codec for ComidEntityMap {
    open spec fn valid(&self) -> bool {
        &&& self.role.valid()
        &&& unreserved(Self::slots(), bucket_view(self.extension))
    }

    proof fn lemma_round_trip(&self) {
        let record = RecordView {
            slots: seq![
                Some(self.entity_name.encoding()),
                slot_encoding(self.reg_id),
                Some(self.role.encoding()),
            ],
            extension: bucket_view(self.extension),
        };
        assert(fits(Self::slots(), record));
        lemma_round_trip(Self::slots(), record);
        self.entity_name.lemma_round_trip();
        lemma_slot_round_trip(self.reg_id);
        self.role.lemma_round_trip();
        assert(record.slots[0] == Some(self.entity_name.encoding()));
        assert(record.slots[1] == slot_encoding(self.reg_id));
        assert(record.slots[2] == Some(self.role.encoding()));
        assert(Self::canonical(record) == Ok::<Tree, Failure>(
            Tree::Dict(encoded(Self::slots(), record)),
        ));
        assert(self.encoding() == Tree::Dict(encoded(Self::slots(), record)));
        assert(decoded(Self::slots(), encoded(Self::slots(), record)) == Ok::<
            RecordView,
            CodecError,
        >(record));
        assert(Self::decoding(Tree::Dict(encoded(Self::slots(), record))) == Self::canonical(
            record,
        ));
    }

    open spec fn encoding(&self) -> Tree {
        Tree::Dict(
            encoded(
                Self::slots(),
                RecordView {
                    slots: seq![
                        Some(self.entity_name.encoding()),
                        slot_encoding(self.reg_id),
                        Some(self.role.encoding()),
                    ],
                    extension: bucket_view(self.extension),
                },
            ),
        )
    }

    open spec fn decoding(tree: Tree) -> Result<Tree, Failure> {
        match tree {
            Tree::Dict(entries) => match decoded(Self::slots(), entries) {
                Err(e) => Err(e@),
                Ok(record) => Self::canonical(record),
            },
            _ => Err(Failure::TypeMismatch { key: None, expected: Shape::Dict }),
        }
    }

    fn encode(self) -> (r: Item) {
        let schema = Self::schema();
        let mut slots: Vec<Option<Item>> = Vec::new();
        slots.push(Some(self.entity_name.encode()));
        slots.push(encode_slot(self.reg_id));
        slots.push(Some(self.role.encode()));
        let record = Record { slots, extension: self.extension };
        proof {
            assert(record@.slots =~= seq![
                Some(self.entity_name.encoding()),
                slot_encoding(self.reg_id),
                Some(self.role.encoding()),
            ]);
        }
        let entries = encode_record(&schema, record);
        proof {
            lemma_dict_view(entries);
        }
        Item::Dict(entries)
    }

    fn decode(value: Item) -> (r: Result<Self, CodecError>) {
        match value {
            Item::Dict(entries) => {
                proof {
                    lemma_dict_view(entries);
                }
                let schema = Self::schema();
                let record = decode_record(&schema, entries)?;
                let ghost content = record@;
                let extension = record.extension;
                let mut slots = record.slots;
                let role = pop_slot(&mut slots);
                let reg_id = pop_slot(&mut slots);
                let name = pop_slot(&mut slots);
                proof {
                    assert(!missing(Self::slots(), content.slots, 0));
                    assert(!missing(Self::slots(), content.slots, 2));
                }
                let entity_name = decode_slot::<String>(name)?;
                let reg_id = decode_slot::<String>(reg_id)?;
                let role = decode_slot::<NonEmptyVec<ComidRoleTypeChoice>>(role)?;
                match (entity_name, role) {
                    (Some(entity_name), Some(role)) => Ok(
                        ComidEntityMap { entity_name, reg_id, role, extension },
                    ),
                    _ => Err(CodecError::MissingField(31)),
                }
            },
            _ => Err(CodecError::TypeMismatch { key: None, expected: Shape::Dict }),
        }
    }
}

impl TriplesMap {
    /// The reserved keys of a map of claims, one for each kind of claim;
    /// none of them must be there by itself.
    pub open spec fn slots() -> Seq<Slot> {
        seq![
            Slot { key: 0, name: "reference-triples", shape: Some(Shape::Array), required: false },
            Slot { key: 1, name: "endorsed-triples", shape: Some(Shape::Array), required: false },
            Slot { key: 2, name: "identity-triples", shape: Some(Shape::Array), required: false },
            Slot { key: 3, name: "attest-key-triples", shape: Some(Shape::Array), required: false },
            Slot { key: 4, name: "dependency-triples", shape: Some(Shape::Array), required: false },
            Slot { key: 5, name: "membership-triples", shape: Some(Shape::Array), required: false },
            Slot { key: 6, name: "coswid-triples", shape: Some(Shape::Array), required: false },
            Slot { key: 8, name: "conditional-endorsement-series-triples", shape: Some(Shape::Array), required: false },
            Slot { key: 10, name: "conditional-endorsement-triples", shape: Some(Shape::Array), required: false },
        ]
    }

    /// The reserved keys of a map of claims.
    pub fn schema() -> (r: Vec<Slot>)
        ensures
            r@ == Self::slots(),
            distinct_keys(r@),
    {
        let mut r: Vec<Slot> = Vec::new();
        r.push(Slot { key: 0, name: "reference-triples", shape: Some(Shape::Array), required: false });
        r.push(Slot { key: 1, name: "endorsed-triples", shape: Some(Shape::Array), required: false });
        r.push(Slot { key: 2, name: "identity-triples", shape: Some(Shape::Array), required: false });
        r.push(Slot { key: 3, name: "attest-key-triples", shape: Some(Shape::Array), required: false });
        r.push(Slot { key: 4, name: "dependency-triples", shape: Some(Shape::Array), required: false });
        r.push(Slot { key: 5, name: "membership-triples", shape: Some(Shape::Array), required: false });
        r.push(Slot { key: 6, name: "coswid-triples", shape: Some(Shape::Array), required: false });
        r.push(Slot { key: 8, name: "conditional-endorsement-series-triples", shape: Some(Shape::Array), required: false });
        r.push(Slot { key: 10, name: "conditional-endorsement-triples", shape: Some(Shape::Array), required: false });
        proof {
            assert(r@ =~= Self::slots());
        }
        r
    }

    /// The canonical form of a record that was read against the schema: a
    /// map that holds no kind of claim and no extension is refused.
    pub open spec fn canonical(record: RecordView) -> Result<Tree, Failure> {
        match slot_decoding::<NonEmptyVec<ReferenceTripleRecord>>(record.slots[0]) {
            Err(e) => Err(e),
            Ok(reference) => match slot_decoding::<NonEmptyVec<EndorsedTripleRecord>>(
                record.slots[1],
            ) {
                Err(e) => Err(e),
                Ok(endorsed) => match slot_decoding::<NonEmptyVec<Item>>(
                    record.slots[2],
                ) {
                    Err(e) => Err(e),
                    Ok(identity) => match slot_decoding::<NonEmptyVec<Item>>(
                        record.slots[3],
                    ) {
                        Err(e) => Err(e),
                        Ok(attest_key) => match slot_decoding::<NonEmptyVec<Item>>(
                            record.slots[4],
                        ) {
                            Err(e) => Err(e),
                            Ok(dependency) => match slot_decoding::<NonEmptyVec<Item>>(
                                record.slots[5],
                            ) {
                                Err(e) => Err(e),
                                Ok(membership) => match slot_decoding::<NonEmptyVec<Item>>(
                                    record.slots[6],
                                ) {
                                    Err(e) => Err(e),
                                    Ok(coswid) => match slot_decoding::<NonEmptyVec<Item>>(
                                        record.slots[7],
                                    ) {
                                        Err(e) => Err(e),
                                        Ok(series) => match slot_decoding::<NonEmptyVec<Item>>(
                                            record.slots[8],
                                        ) {
                                            Err(e) => Err(e),
                                            Ok(conditional) => {
                                                let slots = seq![
                                                    reference,
                                                    endorsed,
                                                    identity,
                                                    attest_key,
                                                    dependency,
                                                    membership,
                                                    coswid,
                                                    series,
                                                    conditional,
                                                ];
                                                if Self::all_vacant(slots) && record.extension.len() == 0 {
                                                    Err(Failure::EmptyRecord)
                                                } else {
                                                    Ok(
                                                        Tree::Dict(
                                                            encoded(
                                                                Self::slots(),
                                                                RecordView { slots, extension: record.extension },
                                                            ),
                                                        ),
                                                    )
                                                }
                                            },
                                        },
                                    },
                                },
                            },
                        },
                    },
                },
            },
        }
    }

    /// Whether every one of the nine slots is vacant.
    pub open spec fn all_vacant(slots: Seq<Option<Tree>>) -> bool {
        forall|i: int| 0 <= i < 9 ==> (#[trigger] slots[i]) is None
    }
}

impl Codec for TriplesMap {
    open spec fn valid(&self) -> bool {
        &&& !self.is_vacant()
        &&& slot_valid(self.reference_triples)
        &&& slot_valid(self.endorsed_triples)
        &&& slot_valid(self.identity_triples)
        &&& slot_valid(self.attest_key_triples)
        &&& slot_valid(self.dependency_triples)
        &&& slot_valid(self.membership_triples)
        &&& slot_valid(self.coswid_triples)
        &&& slot_valid(self.conditional_endorsement_series_triples)
        &&& slot_valid(self.conditional_endorsement_triples)
        &&& !(self.extension matches Some(bucket) && bucket@.len() == 0)
        &&& unreserved(Self::slots(), bucket_view(self.extension))
    }

    proof fn lemma_round_trip(&self) {
        let record = RecordView {
            slots: seq![
                slot_encoding(self.reference_triples),
                slot_encoding(self.endorsed_triples),
                slot_encoding(self.identity_triples),
                slot_encoding(self.attest_key_triples),
                slot_encoding(self.dependency_triples),
                slot_encoding(self.membership_triples),
                slot_encoding(self.coswid_triples),
                slot_encoding(self.conditional_endorsement_series_triples),
                slot_encoding(self.conditional_endorsement_triples),
            ],
            extension: bucket_view(self.extension),
        };
        assert(fits(Self::slots(), record));
        lemma_round_trip(Self::slots(), record);
        lemma_slot_round_trip(self.reference_triples);
        lemma_slot_round_trip(self.endorsed_triples);
        lemma_slot_round_trip(self.identity_triples);
        lemma_slot_round_trip(self.attest_key_triples);
        lemma_slot_round_trip(self.dependency_triples);
        lemma_slot_round_trip(self.membership_triples);
        lemma_slot_round_trip(self.coswid_triples);
        lemma_slot_round_trip(self.conditional_endorsement_series_triples);
        lemma_slot_round_trip(self.conditional_endorsement_triples);
        assert(record.slots[0] == slot_encoding(self.reference_triples));
        assert(record.slots[1] == slot_encoding(self.endorsed_triples));
        assert(record.slots[2] == slot_encoding(self.identity_triples));
        assert(record.slots[3] == slot_encoding(self.attest_key_triples));
        assert(record.slots[4] == slot_encoding(self.dependency_triples));
        assert(record.slots[5] == slot_encoding(self.membership_triples));
        assert(record.slots[6] == slot_encoding(self.coswid_triples));
        assert(record.slots[7] == slot_encoding(self.conditional_endorsement_series_triples));
        assert(record.slots[8] == slot_encoding(self.conditional_endorsement_triples));
        assert(Self::canonical(record) == Ok::<Tree, Failure>(
            Tree::Dict(encoded(Self::slots(), record)),
        ));
        assert(self.encoding() == Tree::Dict(encoded(Self::slots(), record)));
        assert(decoded(Self::slots(), encoded(Self::slots(), record)) == Ok::<
            RecordView,
            CodecError,
        >(record));
        assert(Self::decoding(Tree::Dict(encoded(Self::slots(), record))) == Self::canonical(
            record,
        ));
    }

    open spec fn encoding(&self) -> Tree {
        Tree::Dict(
            encoded(
                Self::slots(),
                RecordView {
                    slots: seq![
                        slot_encoding(self.reference_triples),
                        slot_encoding(self.endorsed_triples),
                        slot_encoding(self.identity_triples),
                        slot_encoding(self.attest_key_triples),
                        slot_encoding(self.dependency_triples),
                        slot_encoding(self.membership_triples),
                        slot_encoding(self.coswid_triples),
                        slot_encoding(self.conditional_endorsement_series_triples),
                        slot_encoding(self.conditional_endorsement_triples),
                    ],
                    extension: bucket_view(self.extension),
                },
            ),
        )
    }

    open spec fn decoding(tree: Tree) -> Result<Tree, Failure> {
        match tree {
            Tree::Dict(entries) => match decoded(Self::slots(), entries) {
                Err(e) => Err(e@),
                Ok(record) => Self::canonical(record),
            },
            _ => Err(Failure::TypeMismatch { key: None, expected: Shape::Dict }),
        }
    }

    fn encode(self) -> (r: Item) {
        let schema = Self::schema();
        let mut slots: Vec<Option<Item>> = Vec::new();
        slots.push(encode_slot(self.reference_triples));
        slots.push(encode_slot(self.endorsed_triples));
        slots.push(encode_slot(self.identity_triples));
        slots.push(encode_slot(self.attest_key_triples));
        slots.push(encode_slot(self.dependency_triples));
        slots.push(encode_slot(self.membership_triples));
        slots.push(encode_slot(self.coswid_triples));
        slots.push(encode_slot(self.conditional_endorsement_series_triples));
        slots.push(encode_slot(self.conditional_endorsement_triples));
        let record = Record { slots, extension: self.extension };
        proof {
            assert(record@.slots =~= seq![
                slot_encoding(self.reference_triples),
                slot_encoding(self.endorsed_triples),
                slot_encoding(self.identity_triples),
                slot_encoding(self.attest_key_triples),
                slot_encoding(self.dependency_triples),
                slot_encoding(self.membership_triples),
                slot_encoding(self.coswid_triples),
                slot_encoding(self.conditional_endorsement_series_triples),
                slot_encoding(self.conditional_endorsement_triples),
            ]);
        }
        let entries = encode_record(&schema, record);
        proof {
            lemma_dict_view(entries);
        }
        Item::Dict(entries)
    }

    #[verifier::rlimit(60)]
    fn decode(value: Item) -> (r: Result<Self, CodecError>) {
        match value {
            Item::Dict(entries) => {
                proof {
                    lemma_dict_view(entries);
                }
                let schema = Self::schema();
                let record = decode_record(&schema, entries)?;
                let extension = record.extension;
                let mut slots = record.slots;
                let v8 = pop_slot(&mut slots);
                let v7 = pop_slot(&mut slots);
                let v6 = pop_slot(&mut slots);
                let v5 = pop_slot(&mut slots);
                let v4 = pop_slot(&mut slots);
                let v3 = pop_slot(&mut slots);
                let v2 = pop_slot(&mut slots);
                let v1 = pop_slot(&mut slots);
                let v0 = pop_slot(&mut slots);
                let reference_triples = decode_slot::<NonEmptyVec<ReferenceTripleRecord>>(v0)?;
                let endorsed_triples = decode_slot::<NonEmptyVec<EndorsedTripleRecord>>(v1)?;
                let identity_triples = decode_slot::<NonEmptyVec<Item>>(v2)?;
                let attest_key_triples = decode_slot::<NonEmptyVec<Item>>(v3)?;
                let dependency_triples = decode_slot::<NonEmptyVec<Item>>(v4)?;
                let membership_triples = decode_slot::<NonEmptyVec<Item>>(v5)?;
                let coswid_triples = decode_slot::<NonEmptyVec<Item>>(v6)?;
                let conditional_endorsement_series_triples = decode_slot::<NonEmptyVec<Item>>(v7)?;
                let conditional_endorsement_triples = decode_slot::<NonEmptyVec<Item>>(v8)?;
                if reference_triples.is_none() && endorsed_triples.is_none() && identity_triples.is_none() && attest_key_triples.is_none() && dependency_triples.is_none() && membership_triples.is_none() && coswid_triples.is_none() && conditional_endorsement_series_triples.is_none() && conditional_endorsement_triples.is_none() && extension.is_none() {
                    return Err(CodecError::EmptyRecord);
                }
                Ok(
                    TriplesMap {
                        reference_triples,
                        endorsed_triples,
                        identity_triples,
                        attest_key_triples,
                        dependency_triples,
                        membership_triples,
                        coswid_triples,
                        conditional_endorsement_series_triples,
                        conditional_endorsement_triples,
                        extension,
                    },
                )
            },
            _ => Err(CodecError::TypeMismatch { key: None, expected: Shape::Dict }),
        }
    }
}

impl ConciseMidTag {
    /// The reserved keys of a module-identifier record: the identity and
    /// the claims, which must be there, and the language, the entities and
    /// the linked records.
    pub open spec fn slots() -> Seq<Slot> {
        seq![
            Slot { key: 0, name: "language", shape: Some(Shape::Text), required: false },
            Slot { key: 1, name: "tag-identity", shape: Some(Shape::Dict), required: true },
            Slot { key: 2, name: "entities", shape: Some(Shape::Array), required: false },
            Slot { key: 3, name: "linked-tags", shape: Some(Shape::Array), required: false },
            Slot { key: 4, name: "triples", shape: Some(Shape::Dict), required: true },
        ]
    }

    /// The reserved keys of a module-identifier record.
    pub fn schema() -> (r: Vec<Slot>)
        ensures
            r@ == Self::slots(),
            distinct_keys(r@),
    {
        let mut r: Vec<Slot> = Vec::new();
        r.push(Slot { key: 0, name: "language", shape: Some(Shape::Text), required: false });
        r.push(Slot { key: 1, name: "tag-identity", shape: Some(Shape::Dict), required: true });
        r.push(Slot { key: 2, name: "entities", shape: Some(Shape::Array), required: false });
        r.push(Slot { key: 3, name: "linked-tags", shape: Some(Shape::Array), required: false });
        r.push(Slot { key: 4, name: "triples", shape: Some(Shape::Dict), required: true });
        proof {
            assert(r@ =~= Self::slots());
        }
        r
    }

    /// The canonical form of a record that was read against the schema.
    pub open spec fn canonical(record: RecordView) -> Result<Tree, Failure> {
        match slot_decoding::<String>(record.slots[0]) {
            Err(e) => Err(e),
            Ok(language) => match slot_decoding::<TagIdentityMap>(record.slots[1]) {
                Err(e) => Err(e),
                Ok(identity) => match slot_decoding::<NonEmptyVec<ComidEntityMap>>(
                    record.slots[2],
                ) {
                    Err(e) => Err(e),
                    Ok(entities) => match slot_decoding::<NonEmptyVec<LinkedTagMap>>(
                        record.slots[3],
                    ) {
                        Err(e) => Err(e),
                        Ok(linked) => match slot_decoding::<TriplesMap>(record.slots[4]) {
                            Err(e) => Err(e),
                            Ok(triples) => Ok(
                                Tree::Dict(
                                    encoded(
                                        Self::slots(),
                                        RecordView {
                                            slots: seq![
                                                language,
                                                identity,
                                                entities,
                                                linked,
                                                triples,
                                            ],
                                            extension: record.extension,
                                        },
                                    ),
                                ),
                            ),
                        },
                    },
                },
            },
        }
    }
}

impl Codec for ConciseMidTag {
    open spec fn valid(&self) -> bool {
        &&& self.tag_identity.valid()
        &&& slot_valid(self.entities)
        &&& slot_valid(self.linked_tags)
        &&& self.triples.valid()
        &&& unreserved(Self::slots(), bucket_view(self.extension))
    }

    #[verifier::rlimit(60)]
    proof fn lemma_round_trip(&self) {
        let record = RecordView {
            slots: seq![
                slot_encoding(self.language),
                Some(self.tag_identity.encoding()),
                slot_encoding(self.entities),
                slot_encoding(self.linked_tags),
                Some(self.triples.encoding()),
            ],
            extension: bucket_view(self.extension),
        };
        assert(fits(Self::slots(), record));
        lemma_round_trip(Self::slots(), record);
        lemma_slot_round_trip(self.language);
        self.tag_identity.lemma_round_trip();
        lemma_slot_round_trip(self.entities);
        lemma_slot_round_trip(self.linked_tags);
        self.triples.lemma_round_trip();
        assert(record.slots[0] == slot_encoding(self.language));
        assert(record.slots[1] == Some(self.tag_identity.encoding()));
        assert(record.slots[2] == slot_encoding(self.entities));
        assert(record.slots[3] == slot_encoding(self.linked_tags));
        assert(record.slots[4] == Some(self.triples.encoding()));
        assert(Self::canonical(record) == Ok::<Tree, Failure>(
            Tree::Dict(encoded(Self::slots(), record)),
        ));
        assert(self.encoding() == Tree::Dict(encoded(Self::slots(), record)));
        assert(decoded(Self::slots(), encoded(Self::slots(), record)) == Ok::<
            RecordView,
            CodecError,
        >(record));
        assert(Self::decoding(Tree::Dict(encoded(Self::slots(), record))) == Self::canonical(
            record,
        ));
    }

    open spec fn encoding(&self) -> Tree {
        Tree::Dict(
            encoded(
                Self::slots(),
                RecordView {
                    slots: seq![
                        slot_encoding(self.language),
                        Some(self.tag_identity.encoding()),
                        slot_encoding(self.entities),
                        slot_encoding(self.linked_tags),
                        Some(self.triples.encoding()),
                    ],
                    extension: bucket_view(self.extension),
                },
            ),
        )
    }

    open spec fn decoding(tree: Tree) -> Result<Tree, Failure> {
        match tree {
            Tree::Dict(entries) => match decoded(Self::slots(), entries) {
                Err(e) => Err(e@),
                Ok(record) => Self::canonical(record),
            },
            _ => Err(Failure::TypeMismatch { key: None, expected: Shape::Dict }),
        }
    }

    fn encode(self) -> (r: Item) {
        let schema = Self::schema();
        let mut slots: Vec<Option<Item>> = Vec::new();
        slots.push(encode_slot(self.language));
        slots.push(Some(self.tag_identity.encode()));
        slots.push(encode_slot(self.entities));
        slots.push(encode_slot(self.linked_tags));
        slots.push(Some(self.triples.encode()));
        let record = Record { slots, extension: self.extension };
        proof {
            assert(record@.slots =~= seq![
                slot_encoding(self.language),
                Some(self.tag_identity.encoding()),
                slot_encoding(self.entities),
                slot_encoding(self.linked_tags),
                Some(self.triples.encoding()),
            ]);
        }
        let entries = encode_record(&schema, record);
        proof {
            lemma_dict_view(entries);
        }
        Item::Dict(entries)
    }

    fn decode(value: Item) -> (r: Result<Self, CodecError>) {
        match value {
            Item::Dict(entries) => {
                proof {
                    lemma_dict_view(entries);
                }
                let schema = Self::schema();
                let record = decode_record(&schema, entries)?;
                let ghost content = record@;
                let extension = record.extension;
                let mut slots = record.slots;
                let triples = pop_slot(&mut slots);
                let linked = pop_slot(&mut slots);
                let entities = pop_slot(&mut slots);
                let identity = pop_slot(&mut slots);
                let language = pop_slot(&mut slots);
                proof {
                    assert(!missing(Self::slots(), content.slots, 1));
                    assert(!missing(Self::slots(), content.slots, 4));
                }
                let language = decode_slot::<String>(language)?;
                let identity = decode_slot::<TagIdentityMap>(identity)?;
                let entities = decode_slot::<NonEmptyVec<ComidEntityMap>>(entities)?;
                let linked_tags = decode_slot::<NonEmptyVec<LinkedTagMap>>(linked)?;
                let triples = decode_slot::<TriplesMap>(triples)?;
                match (identity, triples) {
                    (Some(tag_identity), Some(triples)) => Ok(
                        ConciseMidTag {
                            language,
                            tag_identity,
                            entities,
                            linked_tags,
                            triples,
                            extension,
                        },
                    ),
                    _ => Err(CodecError::MissingField(1)),
                }
            },
            _ => Err(CodecError::TypeMismatch { key: None, expected: Shape::Dict }),
        }
    }
}

} // verus!
