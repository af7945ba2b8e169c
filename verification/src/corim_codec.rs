use crate::codec::{
    decode_slot, encode_slot, lemma_slot_round_trip, pop_slot, slot_decoding, slot_encoding,
    slot_valid, Codec,
};
use crate::comid::TagIdTypeChoice;
use crate::comid_codec::identifier_decoding;
use crate::corim::{
    CorimEntityMap, CorimIdTypeChoice, CorimMapExtension, CorimMetaMap, CorimRoleTypeChoice,
    CorimSignerMap, ProtectedCorimHeaderMap, ValidityMap,
};
use crate::tagged::wrapped;
use crate::triples::TaggedBytes;
use crate::error::{failures_of, lemma_no_matching_view, CodecError, Failure};
use crate::record::{
    bucket_view, decode_record, decoded, distinct_keys, encode_record, encoded, fits, missing,
    unreserved, Record, RecordView, Slot,
};
use crate::record_laws::lemma_round_trip;
use crate::value::{lemma_dict_view, Item, Shape, Tree};
use vstd::prelude::*;

verus! {

impl Codec for i64 {
    open spec fn valid(&self) -> bool {
        true
    }

    proof fn lemma_round_trip(&self) {
    }

    open spec fn encoding(&self) -> Tree {
        Tree::Integer(*self)
    }

    open spec fn decoding(tree: Tree) -> Result<Tree, Failure> {
        match tree {
            Tree::Integer(_) => Ok(tree),
            _ => Err(Failure::TypeMismatch { key: None, expected: Shape::Integer }),
        }
    }

    fn encode(self) -> (r: Item) {
        Item::Integer(self)
    }

    fn decode(value: Item) -> (r: Result<Self, CodecError>) {
        match value {
            Item::Integer(i) => Ok(i),
            _ => Err(CodecError::TypeMismatch { key: None, expected: Shape::Integer }),
        }
    }
}

impl Codec for CorimRoleTypeChoice {
    open spec fn valid(&self) -> bool {
        true
    }

    proof fn lemma_round_trip(&self) {
    }

    open spec fn encoding(&self) -> Tree {
        Tree::Integer(self.code_of())
    }

    open spec fn decoding(tree: Tree) -> Result<Tree, Failure> {
        match tree {
            Tree::Integer(code) => if 1 <= code <= 2 {
                Ok(tree)
            } else {
                Err(Failure::NoMatchingVariant(Seq::empty()))
            },
            _ => Err(Failure::TypeMismatch { key: None, expected: Shape::Integer }),
        }
    }

    fn encode(self) -> (r: Item) {
        Item::Integer(self.code())
    }

    fn decode(value: Item) -> (r: Result<Self, CodecError>) {
        match value {
            Item::Integer(code) => {
                if code == 1 {
                    Ok(CorimRoleTypeChoice::ManifestCreator)
                } else if code == 2 {
                    Ok(CorimRoleTypeChoice::ManifestSigner)
                } else {
                    let none: Vec<CodecError> = Vec::new();
                    proof {
                        lemma_no_matching_view(none);
                        assert(failures_of(none@) =~= Seq::<Failure>::empty());
                    }
                    Err(CodecError::NoMatchingVariant(none))
                }
            },
            _ => Err(CodecError::TypeMismatch { key: None, expected: Shape::Integer }),
        }
    }
}

impl ValidityMap {
    /// The reserved keys of a validity: its start, and its end, which must be there.
    pub open spec fn slots() -> Seq<Slot> {
        seq![
            Slot { key: 0, name: "not-before", shape: Some(Shape::Integer), required: false },
            Slot { key: 1, name: "not-after", shape: Some(Shape::Integer), required: true },
        ]
    }

    /// The reserved keys of this record.
    pub fn schema() -> (r: Vec<Slot>)
        ensures
            r@ == Self::slots(),
            distinct_keys(r@),
    {
        let mut r: Vec<Slot> = Vec::new();
        r.push(Slot { key: 0, name: "not-before", shape: Some(Shape::Integer), required: false });
        r.push(Slot { key: 1, name: "not-after", shape: Some(Shape::Integer), required: true });
        proof {
            assert(r@ =~= Self::slots());
        }
        r
    }

    /// The canonical form of a record that was read against the schema.
    pub open spec fn canonical(record: RecordView) -> Result<Tree, Failure> {
        match slot_decoding::<i64>(record.slots[0]) {
            Err(e) => Err(e),
            Ok(not_before) => match slot_decoding::<i64>(record.slots[1]) {
                Err(e) => Err(e),
                Ok(not_after) => Ok(
                    Tree::Dict(
                        encoded(
                            Self::slots(),
                            RecordView { slots: seq![not_before, not_after], extension: Seq::empty() },
                        ),
                    ),
                ),
            },
        }
    }
}

impl Codec for ValidityMap {
    open spec fn valid(&self) -> bool {
        &&& slot_valid(self.not_before)
        &&& self.not_after.valid()
    }

    proof fn lemma_round_trip(&self) {
        let record = RecordView {
            slots: seq![
                slot_encoding(self.not_before),
                Some(self.not_after.encoding()),
            ],
            extension: Seq::empty(),
        };
        assert(fits(Self::slots(), record));
        lemma_round_trip(Self::slots(), record);
        lemma_slot_round_trip(self.not_before);
        self.not_after.lemma_round_trip();
        assert(record.slots[0] == slot_encoding(self.not_before));
        assert(record.slots[1] == Some(self.not_after.encoding()));
        assert(Self::canonical(record) == Ok::<Tree, Failure>(
            Tree::Dict(encoded(Self::slots(), record)),
        ));
        assert(self.encoding() == Tree::Dict(encoded(Self::slots(), record)));
        assert(decoded(Self::slots(), encoded(Self::slots(), record)) == Ok::<
            RecordView,
            CodecError,
        >(record));
        assert(Self::decoding(Tree::Dict(encoded(Self::slots(), record))) == Self::canonical(
            record,
        ));
    }

    open spec fn encoding(&self) -> Tree {
        Tree::Dict(
            encoded(
                Self::slots(),
                RecordView {
                    slots: seq![
                    slot_encoding(self.not_before),
                    Some(self.not_after.encoding()),
                    ],
                    extension: Seq::empty(),
                },
            ),
        )
    }

    open spec fn decoding(tree: Tree) -> Result<Tree, Failure> {
        match tree {
            Tree::Dict(entries) => match decoded(Self::slots(), entries) {
                Err(e) => Err(e@),
                Ok(record) => Self::canonical(record),
            },
            _ => Err(Failure::TypeMismatch { key: None, expected: Shape::Dict }),
        }
    }

    fn encode(self) -> (r: Item) {
        let schema = Self::schema();
        let mut slots: Vec<Option<Item>> = Vec::new();
        slots.push(encode_slot(self.not_before));
        slots.push(Some(self.not_after.encode()));
        let record = Record { slots, extension: None };
        proof {
            assert(record@.slots =~= seq![
                slot_encoding(self.not_before),
                Some(self.not_after.encoding()),
            ]);
        }
        let entries = encode_record(&schema, record);
        proof {
            lemma_dict_view(entries);
        }
        Item::Dict(entries)
    }

    fn decode(value: Item) -> (r: Result<Self, CodecError>) {
        match value {
            Item::Dict(entries) => {
                proof {
                    lemma_dict_view(entries);
                }
                let schema = Self::schema();
                let record = decode_record(&schema, entries)?;
                let ghost content = record@;
                let mut slots = record.slots;
                let v1 = pop_slot(&mut slots);
                let v0 = pop_slot(&mut slots);
                proof {
                    assert(!missing(Self::slots(), content.slots, 1));
                }
                let not_before = decode_slot::<i64>(v0)?;
                let not_after = decode_slot::<i64>(v1)?;
                match (not_after,) {
                    (Some(not_after),) => Ok(ValidityMap { not_before, not_after }),
                    _ => Err(CodecError::MissingField(1)),
                }
            },
            _ => Err(CodecError::TypeMismatch { key: None, expected: Shape::Dict }),
        }
    }
}

impl CorimEntityMap {
    /// The reserved keys of a manifest's entity: its name and its role, which must be there, and its registration identifier.
    pub open spec fn slots() -> Seq<Slot> {
        seq![
            Slot { key: 0, name: "entity-name", shape: Some(Shape::Text), required: true },
            Slot { key: 1, name: "reg-id", shape: Some(Shape::Text), required: false },
            Slot { key: 2, name: "role", shape: Some(Shape::Integer), required: true },
        ]
    }

    /// The reserved keys of this record.
    pub fn schema() -> (r: Vec<Slot>)
        ensures
            r@ == Self::slots(),
            distinct_keys(r@),
    {
        let mut r: Vec<Slot> = Vec::new();
        r.push(Slot { key: 0, name: "entity-name", shape: Some(Shape::Text), required: true });
        r.push(Slot { key: 1, name: "reg-id", shape: Some(Shape::Text), required: false });
        r.push(Slot { key: 2, name: "role", shape: Some(Shape::Integer), required: true });
        proof {
            assert(r@ =~= Self::slots());
        }
        r
    }

    /// The canonical form of a record that was read against the schema.
    pub open spec fn canonical(record: RecordView) -> Result<Tree, Failure> {
        match slot_decoding::<String>(record.slots[0]) {
            Err(e) => Err(e),
            Ok(entity_name) => match slot_decoding::<String>(record.slots[1]) {
                Err(e) => Err(e),
                Ok(reg_id) => match slot_decoding::<CorimRoleTypeChoice>(record.slots[2]) {
                    Err(e) => Err(e),
                    Ok(role) => Ok(
                        Tree::Dict(
                            encoded(
                                Self::slots(),
                                RecordView { slots: seq![entity_name, reg_id, role], extension: record.extension },
                            ),
                        ),
                    ),
                },
            },
        }
    }
}

impl Codec for CorimEntityMap {
    open spec fn valid(&self) -> bool {
        &&& self.entity_name.valid()
        &&& slot_valid(self.reg_id)
        &&& self.role.valid()
        &&& unreserved(Self::slots(), bucket_view(self.extension))
    }

    proof fn lemma_round_trip(&self) {
        let record = RecordView {
            slots: seq![
                Some(self.entity_name.encoding()),
                slot_encoding(self.reg_id),
                Some(self.role.encoding()),
            ],
            extension: bucket_view(self.extension),
        };
        assert(fits(Self::slots(), record));
        lemma_round_trip(Self::slots(), record);
        self.entity_name.lemma_round_trip();
        lemma_slot_round_trip(self.reg_id);
        self.role.lemma_round_trip();
        assert(record.slots[0] == Some(self.entity_name.encoding()));
        assert(record.slots[1] == slot_encoding(self.reg_id));
        assert(record.slots[2] == Some(self.role.encoding()));
        assert(Self::canonical(record) == Ok::<Tree, Failure>(
            Tree::Dict(encoded(Self::slots(), record)),
        ));
        assert(self.encoding() == Tree::Dict(encoded(Self::slots(), record)));
        assert(decoded(Self::slots(), encoded(Self::slots(), record)) == Ok::<
            RecordView,
            CodecError,
        >(record));
        assert(Self::decoding(Tree::Dict(encoded(Self::slots(), record))) == Self::canonical(
            record,
        ));
    }

    open spec fn encoding(&self) -> Tree {
        Tree::Dict(
            encoded(
                Self::slots(),
                RecordView {
                    slots: seq![
                    Some(self.entity_name.encoding()),
                    slot_encoding(self.reg_id),
                    Some(self.role.encoding()),
                    ],
                    extension: bucket_view(self.extension),
                },
            ),
        )
    }

    open spec fn decoding(tree: Tree) -> Result<Tree, Failure> {
        match tree {
            Tree::Dict(entries) => match decoded(Self::slots(), entries) {
                Err(e) => Err(e@),
                Ok(record) => Self::canonical(record),
            },
            _ => Err(Failure::TypeMismatch { key: None, expected: Shape::Dict }),
        }
    }

    fn encode(self) -> (r: Item) {
        let schema = Self::schema();
        let mut slots: Vec<Option<Item>> = Vec::new();
        slots.push(Some(self.entity_name.encode()));
        slots.push(encode_slot(self.reg_id));
        slots.push(Some(self.role.encode()));
        let record = Record { slots, extension: self.extension };
        proof {
            assert(record@.slots =~= seq![
                Some(self.entity_name.encoding()),
                slot_encoding(self.reg_id),
                Some(self.role.encoding()),
            ]);
        }
        let entries = encode_record(&schema, record);
        proof {
            lemma_dict_view(entries);
        }
        Item::Dict(entries)
    }

    fn decode(value: Item) -> (r: Result<Self, CodecError>) {
        match value {
            Item::Dict(entries) => {
                proof {
                    lemma_dict_view(entries);
                }
                let schema = Self::schema();
                let record = decode_record(&schema, entries)?;
                let ghost content = record@;
                let extension = record.extension;
                let mut slots = record.slots;
                let v2 = pop_slot(&mut slots);
                let v1 = pop_slot(&mut slots);
                let v0 = pop_slot(&mut slots);
                proof {
                    assert(!missing(Self::slots(), content.slots, 0));
                    assert(!missing(Self::slots(), content.slots, 2));
                }
                let entity_name = decode_slot::<String>(v0)?;
                let reg_id = decode_slot::<String>(v1)?;
                let role = decode_slot::<CorimRoleTypeChoice>(v2)?;
                match (entity_name, role) {
                    (Some(entity_name), Some(role)) => Ok(CorimEntityMap { entity_name, reg_id, role, extension: extension }),
                    _ => Err(CodecError::MissingField(0)),
                }
            },
            _ => Err(CodecError::TypeMismatch { key: None, expected: Shape::Dict }),
        }
    }
}

impl CorimSignerMap {
    /// The reserved keys of a signer: its name, which must be there, and its resource identifier.
    pub open spec fn slots() -> Seq<Slot> {
        seq![
            Slot { key: 0, name: "signer-name", shape: Some(Shape::Text), required: true },
            Slot { key: 1, name: "signer-uri", shape: Some(Shape::Text), required: false },
        ]
    }

    /// The reserved keys of this record.
    pub fn schema() -> (r: Vec<Slot>)
        ensures
            r@ == Self::slots(),
            distinct_keys(r@),
    {
        let mut r: Vec<Slot> = Vec::new();
        r.push(Slot { key: 0, name: "signer-name", shape: Some(Shape::Text), required: true });
        r.push(Slot { key: 1, name: "signer-uri", shape: Some(Shape::Text), required: false });
        proof {
            assert(r@ =~= Self::slots());
        }
        r
    }

    /// The canonical form of a record that was read against the schema.
    pub open spec fn canonical(record: RecordView) -> Result<Tree, Failure> {
        match slot_decoding::<String>(record.slots[0]) {
            Err(e) => Err(e),
            Ok(signer_name) => match slot_decoding::<String>(record.slots[1]) {
                Err(e) => Err(e),
                Ok(signer_uri) => Ok(
                    Tree::Dict(
                        encoded(
                            Self::slots(),
                            RecordView { slots: seq![signer_name, signer_uri], extension: record.extension },
                        ),
                    ),
                ),
            },
        }
    }
}

impl Codec for CorimSignerMap {
    open spec fn valid(&self) -> bool {
        &&& self.signer_name.valid()
        &&& slot_valid(self.signer_uri)
        &&& unreserved(Self::slots(), bucket_view(self.extension))
    }

    proof fn lemma_round_trip(&self) {
        let record = RecordView {
            slots: seq![
                Some(self.signer_name.encoding()),
                slot_encoding(self.signer_uri),
            ],
            extension: bucket_view(self.extension),
        };
        assert(fits(Self::slots(), record));
        lemma_round_trip(Self::slots(), record);
        self.signer_name.lemma_round_trip();
        lemma_slot_round_trip(self.signer_uri);
        assert(record.slots[0] == Some(self.signer_name.encoding()));
        assert(record.slots[1] == slot_encoding(self.signer_uri));
        assert(Self::canonical(record) == Ok::<Tree, Failure>(
            Tree::Dict(encoded(Self::slots(), record)),
        ));
        assert(self.encoding() == Tree::Dict(encoded(Self::slots(), record)));
        assert(decoded(Self::slots(), encoded(Self::slots(), record)) == Ok::<
            RecordView,
            CodecError,
        >(record));
        assert(Self::decoding(Tree::Dict(encoded(Self::slots(), record))) == Self::canonical(
            record,
        ));
    }

    open spec fn encoding(&self) -> Tree {
        Tree::Dict(
            encoded(
                Self::slots(),
                RecordView {
                    slots: seq![
                    Some(self.signer_name.encoding()),
                    slot_encoding(self.signer_uri),
                    ],
                    extension: bucket_view(self.extension),
                },
            ),
        )
    }

    open spec fn decoding(tree: Tree) -> Result<Tree, Failure> {
        match tree {
            Tree::Dict(entries) => match decoded(Self::slots(), entries) {
                Err(e) => Err(e@),
                Ok(record) => Self::canonical(record),
            },
            _ => Err(Failure::TypeMismatch { key: None, expected: Shape::Dict }),
        }
    }

    fn encode(self) -> (r: Item) {
        let schema = Self::schema();
        let mut slots: Vec<Option<Item>> = Vec::new();
        slots.push(Some(self.signer_name.encode()));
        slots.push(encode_slot(self.signer_uri));
        let record = Record { slots, extension: self.extension };
        proof {
            assert(record@.slots =~= seq![
                Some(self.signer_name.encoding()),
                slot_encoding(self.signer_uri),
            ]);
        }
        let entries = encode_record(&schema, record);
        proof {
            lemma_dict_view(entries);
        }
        Item::Dict(entries)
    }

    fn decode(value: Item) -> (r: Result<Self, CodecError>) {
        match value {
            Item::Dict(entries) => {
                proof {
                    lemma_dict_view(entries);
                }
                let schema = Self::schema();
                let record = decode_record(&schema, entries)?;
                let ghost content = record@;
                let extension = record.extension;
                let mut slots = record.slots;
                let v1 = pop_slot(&mut slots);
                let v0 = pop_slot(&mut slots);
                proof {
                    assert(!missing(Self::slots(), content.slots, 0));
                }
                let signer_name = decode_slot::<String>(v0)?;
                let signer_uri = decode_slot::<String>(v1)?;
                match (signer_name,) {
                    (Some(signer_name),) => Ok(CorimSignerMap { signer_name, signer_uri, extension: extension }),
                    _ => Err(CodecError::MissingField(0)),
                }
            },
            _ => Err(CodecError::TypeMismatch { key: None, expected: Shape::Dict }),
        }
    }
}

impl CorimMetaMap {
    /// The reserved keys of signing metadata: the signer, which must be there, and the signature's validity.
    pub open spec fn slots() -> Seq<Slot> {
        seq![
            Slot { key: 0, name: "signer", shape: Some(Shape::Dict), required: true },
            Slot { key: 1, name: "signature-validity", shape: Some(Shape::Dict), required: false },
        ]
    }

    /// The reserved keys of this record.
    pub fn schema() -> (r: Vec<Slot>)
        ensures
            r@ == Self::slots(),
            distinct_keys(r@),
    {
        let mut r: Vec<Slot> = Vec::new();
        r.push(Slot { key: 0, name: "signer", shape: Some(Shape::Dict), required: true });
        r.push(Slot { key: 1, name: "signature-validity", shape: Some(Shape::Dict), required: false });
        proof {
            assert(r@ =~= Self::slots());
        }
        r
    }

    /// The canonical form of a record that was read against the schema.
    pub open spec fn canonical(record: RecordView) -> Result<Tree, Failure> {
        match slot_decoding::<CorimSignerMap>(record.slots[0]) {
            Err(e) => Err(e),
            Ok(signer) => match slot_decoding::<ValidityMap>(record.slots[1]) {
                Err(e) => Err(e),
                Ok(signature_validity) => Ok(
                    Tree::Dict(
                        encoded(
                            Self::slots(),
                            RecordView { slots: seq![signer, signature_validity], extension: Seq::empty() },
                        ),
                    ),
                ),
            },
        }
    }
}

impl Codec for CorimMetaMap {
    open spec fn valid(&self) -> bool {
        &&& self.signer.valid()
        &&& slot_valid(self.signature_validity)
    }

    #[verifier::rlimit(80)]
    proof fn lemma_round_trip(&self) {
        let record = RecordView {
            slots: seq![
                Some(self.signer.encoding()),
                slot_encoding(self.signature_validity),
            ],
            extension: Seq::empty(),
        };
        assert(fits(Self::slots(), record));
        lemma_round_trip(Self::slots(), record);
        self.signer.lemma_round_trip();
        lemma_slot_round_trip(self.signature_validity);
        assert(record.slots[0] == Some(self.signer.encoding()));
        assert(record.slots[1] == slot_encoding(self.signature_validity));
        assert(Self::canonical(record) == Ok::<Tree, Failure>(
            Tree::Dict(encoded(Self::slots(), record)),
        ));
        assert(self.encoding() == Tree::Dict(encoded(Self::slots(), record)));
        assert(decoded(Self::slots(), encoded(Self::slots(), record)) == Ok::<
            RecordView,
            CodecError,
        >(record));
        assert(Self::decoding(Tree::Dict(encoded(Self::slots(), record))) == Self::canonical(
            record,
        ));
    }

    open spec fn encoding(&self) -> Tree {
        Tree::Dict(
            encoded(
                Self::slots(),
                RecordView {
                    slots: seq![
                    Some(self.signer.encoding()),
                    slot_encoding(self.signature_validity),
                    ],
                    extension: Seq::empty(),
                },
            ),
        )
    }

    open spec fn decoding(tree: Tree) -> Result<Tree, Failure> {
        match tree {
            Tree::Dict(entries) => match decoded(Self::slots(), entries) {
                Err(e) => Err(e@),
                Ok(record) => Self::canonical(record),
            },
            _ => Err(Failure::TypeMismatch { key: None, expected: Shape::Dict }),
        }
    }

    fn encode(self) -> (r: Item) {
        let schema = Self::schema();
        let mut slots: Vec<Option<Item>> = Vec::new();
        slots.push(Some(self.signer.encode()));
        slots.push(encode_slot(self.signature_validity));
        let record = Record { slots, extension: None };
        proof {
            assert(record@.slots =~= seq![
                Some(self.signer.encoding()),
                slot_encoding(self.signature_validity),
            ]);
        }
        let entries = encode_record(&schema, record);
        proof {
            lemma_dict_view(entries);
        }
        Item::Dict(entries)
    }

    fn decode(value: Item) -> (r: Result<Self, CodecError>) {
        match value {
            Item::Dict(entries) => {
                proof {
                    lemma_dict_view(entries);
                }
                let schema = Self::schema();
                let record = decode_record(&schema, entries)?;
                let ghost content = record@;
                let mut slots = record.slots;
                let v1 = pop_slot(&mut slots);
                let v0 = pop_slot(&mut slots);
                proof {
                    assert(!missing(Self::slots(), content.slots, 0));
                }
                let signer = decode_slot::<CorimSignerMap>(v0)?;
                let signature_validity = decode_slot::<ValidityMap>(v1)?;
                match (signer,) {
                    (Some(signer),) => Ok(CorimMetaMap { signer, signature_validity }),
                    _ => Err(CodecError::MissingField(0)),
                }
            },
            _ => Err(CodecError::TypeMismatch { key: None, expected: Shape::Dict }),
        }
    }
}

impl ProtectedCorimHeaderMap {
    /// The reserved keys of a protected header, all of which must be there: the algorithm, the content type, the key identifier and the signing metadata.
    pub open spec fn slots() -> Seq<Slot> {
        seq![
            Slot { key: 1, name: "alg", shape: Some(Shape::Integer), required: true },
            Slot { key: 3, name: "content-type", shape: Some(Shape::Text), required: true },
            Slot { key: 4, name: "kid", shape: Some(Shape::Bytes), required: true },
            Slot { key: 8, name: "corim-meta", shape: Some(Shape::Dict), required: true },
        ]
    }

    /// The reserved keys of this record.
    pub fn schema() -> (r: Vec<Slot>)
        ensures
            r@ == Self::slots(),
            distinct_keys(r@),
    {
        let mut r: Vec<Slot> = Vec::new();
        r.push(Slot { key: 1, name: "alg", shape: Some(Shape::Integer), required: true });
        r.push(Slot { key: 3, name: "content-type", shape: Some(Shape::Text), required: true });
        r.push(Slot { key: 4, name: "kid", shape: Some(Shape::Bytes), required: true });
        r.push(Slot { key: 8, name: "corim-meta", shape: Some(Shape::Dict), required: true });
        proof {
            assert(r@ =~= Self::slots());
        }
        r
    }

    /// The canonical form of a record that was read against the schema.
    pub open spec fn canonical(record: RecordView) -> Result<Tree, Failure> {
        match slot_decoding::<i64>(record.slots[0]) {
            Err(e) => Err(e),
            Ok(alg) => match slot_decoding::<String>(record.slots[1]) {
                Err(e) => Err(e),
                Ok(content_type) => match slot_decoding::<Vec<u8>>(record.slots[2]) {
                    Err(e) => Err(e),
                    Ok(kid) => match slot_decoding::<CorimMetaMap>(record.slots[3]) {
                        Err(e) => Err(e),
                        Ok(corim_meta) => Ok(
                            Tree::Dict(
                                encoded(
                                    Self::slots(),
                                    RecordView { slots: seq![alg, content_type, kid, corim_meta], extension: record.extension },
                                ),
                            ),
                        ),
                    },
                },
            },
        }
    }
}

impl Codec for ProtectedCorimHeaderMap {
    open spec fn valid(&self) -> bool {
        &&& self.alg.valid()
        &&& self.content_type.valid()
        &&& self.kid.valid()
        &&& self.corim_meta.valid()
        &&& unreserved(Self::slots(), bucket_view(self.cose_map))
    }

    #[verifier::rlimit(80)]
    proof fn lemma_round_trip(&self) {
        let record = RecordView {
            slots: seq![
                Some(self.alg.encoding()),
                Some(self.content_type.encoding()),
                Some(self.kid.encoding()),
                Some(self.corim_meta.encoding()),
            ],
            extension: bucket_view(self.cose_map),
        };
        assert(fits(Self::slots(), record));
        lemma_round_trip(Self::slots(), record);
        self.alg.lemma_round_trip();
        self.content_type.lemma_round_trip();
        self.kid.lemma_round_trip();
        self.corim_meta.lemma_round_trip();
        assert(record.slots[0] == Some(self.alg.encoding()));
        assert(record.slots[1] == Some(self.content_type.encoding()));
        assert(record.slots[2] == Some(self.kid.encoding()));
        assert(record.slots[3] == Some(self.corim_meta.encoding()));
        assert(Self::canonical(record) == Ok::<Tree, Failure>(
            Tree::Dict(encoded(Self::slots(), record)),
        ));
        assert(self.encoding() == Tree::Dict(encoded(Self::slots(), record)));
        assert(decoded(Self::slots(), encoded(Self::slots(), record)) == Ok::<
            RecordView,
            CodecError,
        >(record));
        assert(Self::decoding(Tree::Dict(encoded(Self::slots(), record))) == Self::canonical(
            record,
        ));
    }

    open spec fn encoding(&self) -> Tree {
        Tree::Dict(
            encoded(
                Self::slots(),
                RecordView {
                    slots: seq![
                    Some(self.alg.encoding()),
                    Some(self.content_type.encoding()),
                    Some(self.kid.encoding()),
                    Some(self.corim_meta.encoding()),
                    ],
                    extension: bucket_view(self.cose_map),
                },
            ),
        )
    }

    open spec fn decoding(tree: Tree) -> Result<Tree, Failure> {
        match tree {
            Tree::Dict(entries) => match decoded(Self::slots(), entries) {
                Err(e) => Err(e@),
                Ok(record) => Self::canonical(record),
            },
            _ => Err(Failure::TypeMismatch { key: None, expected: Shape::Dict }),
        }
    }

    fn encode(self) -> (r: Item) {
        let schema = Self::schema();
        let mut slots: Vec<Option<Item>> = Vec::new();
        slots.push(Some(self.alg.encode()));
        slots.push(Some(self.content_type.encode()));
        slots.push(Some(self.kid.encode()));
        slots.push(Some(self.corim_meta.encode()));
        let record = Record { slots, extension: self.cose_map };
        proof {
            assert(record@.slots =~= seq![
                Some(self.alg.encoding()),
                Some(self.content_type.encoding()),
                Some(self.kid.encoding()),
                Some(self.corim_meta.encoding()),
            ]);
        }
        let entries = encode_record(&schema, record);
        proof {
            lemma_dict_view(entries);
        }
        Item::Dict(entries)
    }

    fn decode(value: Item) -> (r: Result<Self, CodecError>) {
        match value {
            Item::Dict(entries) => {
                proof {
                    lemma_dict_view(entries);
                }
                let schema = Self::schema();
                let record = decode_record(&schema, entries)?;
                let ghost content = record@;
                let extension = record.extension;
                let mut slots = record.slots;
                let v3 = pop_slot(&mut slots);
                let v2 = pop_slot(&mut slots);
                let v1 = pop_slot(&mut slots);
                let v0 = pop_slot(&mut slots);
                proof {
                    assert(!missing(Self::slots(), content.slots, 0));
                    assert(!missing(Self::slots(), content.slots, 1));
                    assert(!missing(Self::slots(), content.slots, 2));
                    assert(!missing(Self::slots(), content.slots, 3));
                }
                let alg = decode_slot::<i64>(v0)?;
                let content_type = decode_slot::<String>(v1)?;
                let kid = decode_slot::<Vec<u8>>(v2)?;
                let corim_meta = decode_slot::<CorimMetaMap>(v3)?;
                match (alg, content_type, kid, corim_meta) {
                    (Some(alg), Some(content_type), Some(kid), Some(corim_meta)) => Ok(ProtectedCorimHeaderMap { alg, content_type, kid, corim_meta, cose_map: extension }),
                    _ => Err(CodecError::MissingField(1)),
                }
            },
            _ => Err(CodecError::TypeMismatch { key: None, expected: Shape::Dict }),
        }
    }
}

impl Codec for CorimIdTypeChoice {
    open spec fn valid(&self) -> bool {
        true
    }

    proof fn lemma_round_trip(&self) {
        match self {
            CorimIdTypeChoice::Tstr(_) => {},
            CorimIdTypeChoice::Uuid(bytes) => {
                assert(bytes@.len() == 16);
            },
        }
    }

    open spec fn encoding(&self) -> Tree {
        match self {
            CorimIdTypeChoice::Tstr(text) => Tree::Text(text@),
            CorimIdTypeChoice::Uuid(bytes) => wrapped(37, Tree::Bytes(bytes@)),
        }
    }

    open spec fn decoding(tree: Tree) -> Result<Tree, Failure> {
        identifier_decoding(tree)
    }

    /// The active variant's own encoding, with nothing added.
    fn encode(self) -> (r: Item) {
        match self {
            CorimIdTypeChoice::Tstr(text) => TagIdTypeChoice::Tstr(text).encode(),
            CorimIdTypeChoice::Uuid(bytes) => TagIdTypeChoice::Uuid(bytes).encode(),
        }
    }

    /// Settles on the variant by the value's structure alone.
    fn decode(value: Item) -> (r: Result<Self, CodecError>) {
        match TagIdTypeChoice::decode(value) {
            Ok(TagIdTypeChoice::Tstr(text)) => Ok(CorimIdTypeChoice::Tstr(text)),
            Ok(TagIdTypeChoice::Uuid(bytes)) => Ok(CorimIdTypeChoice::Uuid(bytes)),
            Err(e) => Err(e),
        }
    }
}

impl Codec for CorimMapExtension {
    open spec fn valid(&self) -> bool {
        true
    }

    proof fn lemma_round_trip(&self) {
        self.bytes.lemma_round_trip();
    }

    open spec fn encoding(&self) -> Tree {
        self.bytes.encoding()
    }

    open spec fn decoding(tree: Tree) -> Result<Tree, Failure> {
        TaggedBytes::decoding(tree)
    }

    fn encode(self) -> (r: Item) {
        self.bytes.encode()
    }

    fn decode(value: Item) -> (r: Result<Self, CodecError>) {
        match TaggedBytes::decode(value) {
            Ok(bytes) => Ok(CorimMapExtension { bytes }),
            Err(e) => Err(e),
        }
    }
}

} // verus!
