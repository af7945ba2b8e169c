use crate::choice::{lemma_refusal_view, refusals, resolve, Form};
use crate::codec::{
    decode_slot, encode_slot, lemma_slot_round_trip, list_decoding, pop_slot, slot_decoding,
    slot_encoding, slot_valid, Codec,
};
use crate::error::{CodecError, Failure};
use crate::non_empty::NonEmptyVec;
use crate::record::{
    decode_record, decoded, distinct_keys, encode_record, encoded, fits, missing, Record,
    RecordView, Slot,
};
use crate::record_laws::lemma_round_trip;
use crate::triples::{
    EndorsedTripleRecord, EnvironmentMap, MeasuredElementTypeChoice, MeasurementMap,
    MeasurementValuesMap, RawValueType, ReferenceTripleRecord, TaggedBytes,
};
use crate::value::{lemma_array_view, lemma_dict_view, trees, Shape, Tree, Item};
use vstd::prelude::*;

verus! {

impl EnvironmentMap {
    /// The reserved keys of an environment, none of which must be there by
    /// itself.
    pub open spec fn slots() -> Seq<Slot> {
        seq![
            Slot { key: 0, name: "class", shape: Some(Shape::Bytes), required: false },
            Slot { key: 1, name: "instance", shape: Some(Shape::Bytes), required: false },
            Slot { key: 2, name: "group", shape: Some(Shape::Bytes), required: false },
        ]
    }

    /// The reserved keys of an environment.
    pub fn schema() -> (r: Vec<Slot>)
        ensures
            r@ == Self::slots(),
            distinct_keys(r@),
    {
        let mut r: Vec<Slot> = Vec::new();
        r.push(Slot { key: 0, name: "class", shape: Some(Shape::Bytes), required: false });
        r.push(Slot { key: 1, name: "instance", shape: Some(Shape::Bytes), required: false });
        r.push(Slot { key: 2, name: "group", shape: Some(Shape::Bytes), required: false });
        proof {
            assert(r@ =~= Self::slots());
        }
        r
    }

    /// The canonical form of a record that was read against the schema: an
    /// environment that names nothing is refused.
    pub open spec fn canonical(record: RecordView) -> Result<Tree, Failure> {
        match slot_decoding::<Vec<u8>>(record.slots[0]) {
            Err(e) => Err(e),
            Ok(class) => match slot_decoding::<Vec<u8>>(record.slots[1]) {
                Err(e) => Err(e),
                Ok(instance) => match slot_decoding::<Vec<u8>>(record.slots[2]) {
                    Err(e) => Err(e),
                    Ok(group) => if class is None && instance is None && group is None {
                        Err(Failure::EmptyRecord)
                    } else {
                        Ok(
                            Tree::Dict(
                                encoded(
                                    Self::slots(),
                                    RecordView {
                                        slots: seq![class, instance, group],
                                        extension: Seq::empty(),
                                    },
                                ),
                            ),
                        )
                    },
                },
            },
        }
    }
}

impl Codec for EnvironmentMap {
    open spec fn valid(&self) -> bool {
        !(self.class is None && self.instance is None && self.group is None)
    }

    proof fn lemma_round_trip(&self) {
        let record = RecordView {
            slots: seq![
                slot_encoding(self.class),
                slot_encoding(self.instance),
                slot_encoding(self.group),
            ],
            extension: Seq::empty(),
        };
        assert(fits(Self::slots(), record));
        lemma_round_trip(Self::slots(), record);
        lemma_slot_round_trip(self.class);
        lemma_slot_round_trip(self.instance);
        lemma_slot_round_trip(self.group);
        assert(record.slots[0] == slot_encoding(self.class));
        assert(record.slots[1] == slot_encoding(self.instance));
        assert(record.slots[2] == slot_encoding(self.group));
        assert(Self::canonical(record) == Ok::<Tree, Failure>(
            Tree::Dict(encoded(Self::slots(), record)),
        ));
        assert(self.encoding() == Tree::Dict(encoded(Self::slots(), record)));
        assert(decoded(Self::slots(), encoded(Self::slots(), record)) == Ok::<
            RecordView,
            CodecError,
        >(record));
        assert(Self::decoding(Tree::Dict(encoded(Self::slots(), record))) == Self::canonical(
            record,
        ));
    }

    open spec fn encoding(&self) -> Tree {
        Tree::Dict(
            encoded(
                Self::slots(),
                RecordView {
                    slots: seq![
                        slot_encoding(self.class),
                        slot_encoding(self.instance),
                        slot_encoding(self.group),
                    ],
                    extension: Seq::empty(),
                },
            ),
        )
    }

    open spec fn decoding(tree: Tree) -> Result<Tree, Failure> {
        match tree {
            Tree::Dict(entries) => match decoded(Self::slots(), entries) {
                Err(e) => Err(e@),
                Ok(record) => Self::canonical(record),
            },
            _ => Err(Failure::TypeMismatch { key: None, expected: Shape::Dict }),
        }
    }

    fn encode(self) -> (r: Item) {
        let schema = Self::schema();
        let mut slots: Vec<Option<Item>> = Vec::new();
        slots.push(encode_slot(self.class));
        slots.push(encode_slot(self.instance));
        slots.push(encode_slot(self.group));
        let record = Record { slots, extension: None };
        proof {
            assert(record@.slots =~= seq![
                slot_encoding(self.class),
                slot_encoding(self.instance),
                slot_encoding(self.group),
            ]);
        }
        let entries = encode_record(&schema, record);
        proof {
            lemma_dict_view(entries);
        }
        Item::Dict(entries)
    }

    fn decode(value: Item) -> (r: Result<Self, CodecError>) {
        match value {
            Item::Dict(entries) => {
                proof {
                    lemma_dict_view(entries);
                }
                let schema = Self::schema();
                let record = decode_record(&schema, entries)?;
                let mut slots = record.slots;
                let group = pop_slot(&mut slots);
                let instance = pop_slot(&mut slots);
                let class = pop_slot(&mut slots);
                let class = decode_slot::<Vec<u8>>(class)?;
                let instance = decode_slot::<Vec<u8>>(instance)?;
                let group = decode_slot::<Vec<u8>>(group)?;
                if class.is_none() && instance.is_none() && group.is_none() {
                    return Err(CodecError::EmptyRecord);
                }
                Ok(EnvironmentMap { class, instance, group })
            },
            _ => Err(CodecError::TypeMismatch { key: None, expected: Shape::Dict }),
        }
    }
}

/// The forms of a measured element, in the order in which they are tried:
/// a name, then a number.
pub open spec fn element_forms() -> Seq<Form> {
    seq![Form::Plain(Shape::Text), Form::Plain(Shape::Integer)]
}

impl Codec for MeasuredElementTypeChoice {
    open spec fn valid(&self) -> bool {
        true
    }

    proof fn lemma_round_trip(&self) {
        match self {
            MeasuredElementTypeChoice::Tstr(_) => {},
            MeasuredElementTypeChoice::Uint(number) => {
                number.lemma_round_trip();
                assert(self.encoding() == number.encoding());
                assert(Self::decoding(number.encoding()) == u32::decoding(number.encoding()));
            },
        }
    }

    open spec fn encoding(&self) -> Tree {
        match self {
            MeasuredElementTypeChoice::Tstr(text) => Tree::Text(text@),
            MeasuredElementTypeChoice::Uint(number) => Tree::Integer(*number as i64),
        }
    }

    open spec fn decoding(tree: Tree) -> Result<Tree, Failure> {
        match tree {
            Tree::Text(_) => Ok(tree),
            Tree::Integer(_) => u32::decoding(tree),
            _ => Err(Failure::NoMatchingVariant(refusals(element_forms(), tree))),
        }
    }

    /// The active variant's own encoding, with nothing added.
    fn encode(self) -> (r: Item) {
        match self {
            MeasuredElementTypeChoice::Tstr(text) => Item::Text(text),
            MeasuredElementTypeChoice::Uint(number) => number.encode(),
        }
    }

    /// Settles on the variant by the value's structure alone.
    fn decode(value: Item) -> (r: Result<Self, CodecError>) {
        let mut forms: Vec<Form> = Vec::new();
        forms.push(Form::Plain(Shape::Text));
        forms.push(Form::Plain(Shape::Integer));
        proof {
            assert(forms@ =~= element_forms());
        }
        match resolve(&forms, &value) {
            Ok(_) => match value {
                Item::Text(text) => Ok(MeasuredElementTypeChoice::Tstr(text)),
                Item::Integer(_) => match u32::decode(value) {
                    Ok(number) => Ok(MeasuredElementTypeChoice::Uint(number)),
                    Err(e) => Err(e),
                },
                _ => Err(CodecError::EmptyRecord),
            },
            Err(e) => {
                proof {
                    lemma_refusal_view(forms@, value@, e);
                    assert(value@.shape() != Shape::Text) by {
                        assert(crate::choice::mismatch(forms@[0], value@) is Some);
                    }
                    assert(value@.shape() != Shape::Integer) by {
                        assert(crate::choice::mismatch(forms@[1], value@) is Some);
                    }
                }
                Err(e)
            },
        }
    }
}

impl MeasurementValuesMap {
    /// The reserved keys of measured values: a security version number, a
    /// raw value, and the mask of the raw value.
    pub open spec fn slots() -> Seq<Slot> {
        seq![
            Slot { key: 1, name: "svn", shape: Some(Shape::Integer), required: false },
            Slot { key: 4, name: "raw-value", shape: Some(Shape::Tag), required: false },
            Slot { key: 5, name: "raw-value-mask", shape: Some(Shape::Bytes), required: false },
        ]
    }

    /// The reserved keys of measured values.
    pub fn schema() -> (r: Vec<Slot>)
        ensures
            r@ == Self::slots(),
            distinct_keys(r@),
    {
        let mut r: Vec<Slot> = Vec::new();
        r.push(Slot { key: 1, name: "svn", shape: Some(Shape::Integer), required: false });
        r.push(Slot { key: 4, name: "raw-value", shape: Some(Shape::Tag), required: false });
        r.push(Slot { key: 5, name: "raw-value-mask", shape: Some(Shape::Bytes), required: false });
        proof {
            assert(r@ =~= Self::slots());
        }
        r
    }

    /// The slot of the raw value.
    pub open spec fn raw_slot(raw: Option<RawValueType>) -> Option<Tree> {
        match raw {
            Some(r) => Some(r.raw_value.encoding()),
            None => None,
        }
    }

    /// The slot of the raw value's mask.
    pub open spec fn mask_slot(raw: Option<RawValueType>) -> Option<Tree> {
        match raw {
            Some(r) => slot_encoding(r.raw_value_mask),
            None => None,
        }
    }

    /// The canonical form of a record that was read against the schema: a
    /// mask without a raw value is refused, and so are values that hold
    /// nothing.
    pub open spec fn canonical(record: RecordView) -> Result<Tree, Failure> {
        match slot_decoding::<u32>(record.slots[0]) {
            Err(e) => Err(e),
            Ok(svn) => match slot_decoding::<TaggedBytes>(record.slots[1]) {
                Err(e) => Err(e),
                Ok(raw) => match slot_decoding::<Vec<u8>>(record.slots[2]) {
                    Err(e) => Err(e),
                    Ok(mask) => if raw is None && mask is Some {
                        Err(Failure::MissingField(4))
                    } else if svn is None && raw is None {
                        Err(Failure::EmptyRecord)
                    } else {
                        Ok(
                            Tree::Dict(
                                encoded(
                                    Self::slots(),
                                    RecordView {
                                        slots: seq![svn, raw, mask],
                                        extension: Seq::empty(),
                                    },
                                ),
                            ),
                        )
                    },
                },
            },
        }
    }
}

impl Codec for MeasurementValuesMap {
    open spec fn valid(&self) -> bool {
        !(self.svn is None && self.raw is None)
    }

    proof fn lemma_round_trip(&self) {
        let record = RecordView {
            slots: seq![
                slot_encoding(self.svn),
                Self::raw_slot(self.raw),
                Self::mask_slot(self.raw),
            ],
            extension: Seq::empty(),
        };
        assert(fits(Self::slots(), record));
        lemma_round_trip(Self::slots(), record);
        lemma_slot_round_trip(self.svn);
        match self.raw {
            Some(raw) => {
                raw.raw_value.lemma_round_trip();
                lemma_slot_round_trip(raw.raw_value_mask);
            },
            None => {},
        }
        assert(record.slots[0] == slot_encoding(self.svn));
        assert(record.slots[1] == Self::raw_slot(self.raw));
        assert(record.slots[2] == Self::mask_slot(self.raw));
        assert(Self::canonical(record) == Ok::<Tree, Failure>(
            Tree::Dict(encoded(Self::slots(), record)),
        ));
        assert(self.encoding() == Tree::Dict(encoded(Self::slots(), record)));
        assert(decoded(Self::slots(), encoded(Self::slots(), record)) == Ok::<
            RecordView,
            CodecError,
        >(record));
        assert(Self::decoding(Tree::Dict(encoded(Self::slots(), record))) == Self::canonical(
            record,
        ));
    }

    open spec fn encoding(&self) -> Tree {
        Tree::Dict(
            encoded(
                Self::slots(),
                RecordView {
                    slots: seq![
                        slot_encoding(self.svn),
                        Self::raw_slot(self.raw),
                        Self::mask_slot(self.raw),
                    ],
                    extension: Seq::empty(),
                },
            ),
        )
    }

    open spec fn decoding(tree: Tree) -> Result<Tree, Failure> {
        match tree {
            Tree::Dict(entries) => match decoded(Self::slots(), entries) {
                Err(e) => Err(e@),
                Ok(record) => Self::canonical(record),
            },
            _ => Err(Failure::TypeMismatch { key: None, expected: Shape::Dict }),
        }
    }

    fn encode(self) -> (r: Item) {
        let schema = Self::schema();
        let mut slots: Vec<Option<Item>> = Vec::new();
        slots.push(encode_slot(self.svn));
        match self.raw {
            Some(raw) => {
                slots.push(Some(raw.raw_value.encode()));
                slots.push(encode_slot(raw.raw_value_mask));
            },
            None => {
                slots.push(None);
                slots.push(None);
            },
        }
        let record = Record { slots, extension: None };
        proof {
            assert(record@.slots =~= seq![
                slot_encoding(self.svn),
                Self::raw_slot(self.raw),
                Self::mask_slot(self.raw),
            ]);
        }
        let entries = encode_record(&schema, record);
        proof {
            lemma_dict_view(entries);
        }
        Item::Dict(entries)
    }

    fn decode(value: Item) -> (r: Result<Self, CodecError>) {
        match value {
            Item::Dict(entries) => {
                proof {
                    lemma_dict_view(entries);
                }
                let schema = Self::schema();
                let record = decode_record(&schema, entries)?;
                let mut slots = record.slots;
                let mask = pop_slot(&mut slots);
                let raw = pop_slot(&mut slots);
                let svn = pop_slot(&mut slots);
                let svn = decode_slot::<u32>(svn)?;
                let raw = decode_slot::<TaggedBytes>(raw)?;
                let mask = decode_slot::<Vec<u8>>(mask)?;
                match raw {
                    Some(raw_value) => Ok(
                        MeasurementValuesMap {
                            svn,
                            raw: Some(RawValueType { raw_value, raw_value_mask: mask }),
                        },
                    ),
                    None => {
                        if mask.is_some() {
                            Err(CodecError::MissingField(4))
                        } else if svn.is_none() {
                            Err(CodecError::EmptyRecord)
                        } else {
                            Ok(MeasurementValuesMap { svn, raw: None })
                        }
                    },
                }
            },
            _ => Err(CodecError::TypeMismatch { key: None, expected: Shape::Dict }),
        }
    }
}

impl MeasurementMap {
    /// The reserved keys of a measurement: the element, the values, which
    /// must be there, and the key of who vouches for them.
    pub open spec fn slots() -> Seq<Slot> {
        seq![
            Slot { key: 0, name: "mkey", shape: None, required: false },
            Slot { key: 1, name: "mval", shape: Some(Shape::Dict), required: true },
            Slot { key: 2, name: "authorized-by", shape: Some(Shape::Bytes), required: false },
        ]
    }

    /// The reserved keys of a measurement.
    pub fn schema() -> (r: Vec<Slot>)
        ensures
            r@ == Self::slots(),
            distinct_keys(r@),
    {
        let mut r: Vec<Slot> = Vec::new();
        r.push(Slot { key: 0, name: "mkey", shape: None, required: false });
        r.push(Slot { key: 1, name: "mval", shape: Some(Shape::Dict), required: true });
        r.push(Slot { key: 2, name: "authorized-by", shape: Some(Shape::Bytes), required: false });
        proof {
            assert(r@ =~= Self::slots());
        }
        r
    }

    /// The canonical form of a record that was read against the schema.
    pub open spec fn canonical(record: RecordView) -> Result<Tree, Failure> {
        match slot_decoding::<MeasuredElementTypeChoice>(record.slots[0]) {
            Err(e) => Err(e),
            Ok(mkey) => match slot_decoding::<MeasurementValuesMap>(record.slots[1]) {
                Err(e) => Err(e),
                Ok(mval) => match slot_decoding::<Vec<u8>>(record.slots[2]) {
                    Err(e) => Err(e),
                    Ok(authorized_by) => Ok(
                        Tree::Dict(
                            encoded(
                                Self::slots(),
                                RecordView {
                                    slots: seq![mkey, mval, authorized_by],
                                    extension: Seq::empty(),
                                },
                            ),
                        ),
                    ),
                },
            },
        }
    }
}

impl Codec for MeasurementMap {
    open spec fn valid(&self) -> bool {
        self.mval.valid()
    }

    proof fn lemma_round_trip(&self) {
        let record = RecordView {
            slots: seq![
                slot_encoding(self.mkey),
                Some(self.mval.encoding()),
                slot_encoding(self.authorized_by),
            ],
            extension: Seq::empty(),
        };
        assert(fits(Self::slots(), record));
        lemma_round_trip(Self::slots(), record);
        lemma_slot_round_trip(self.mkey);
        self.mval.lemma_round_trip();
        lemma_slot_round_trip(self.authorized_by);
        assert(record.slots[0] == slot_encoding(self.mkey));
        assert(record.slots[1] == Some(self.mval.encoding()));
        assert(record.slots[2] == slot_encoding(self.authorized_by));
        assert(Self::canonical(record) == Ok::<Tree, Failure>(
            Tree::Dict(encoded(Self::slots(), record)),
        ));
        assert(self.encoding() == Tree::Dict(encoded(Self::slots(), record)));
        assert(decoded(Self::slots(), encoded(Self::slots(), record)) == Ok::<
            RecordView,
            CodecError,
        >(record));
        assert(Self::decoding(Tree::Dict(encoded(Self::slots(), record))) == Self::canonical(
            record,
        ));
    }

    open spec fn encoding(&self) -> Tree {
        Tree::Dict(
            encoded(
                Self::slots(),
                RecordView {
                    slots: seq![
                        slot_encoding(self.mkey),
                        Some(self.mval.encoding()),
                        slot_encoding(self.authorized_by),
                    ],
                    extension: Seq::empty(),
                },
            ),
        )
    }

    open spec fn decoding(tree: Tree) -> Result<Tree, Failure> {
        match tree {
            Tree::Dict(entries) => match decoded(Self::slots(), entries) {
                Err(e) => Err(e@),
                Ok(record) => Self::canonical(record),
            },
            _ => Err(Failure::TypeMismatch { key: None, expected: Shape::Dict }),
        }
    }

    fn encode(self) -> (r: Item) {
        let schema = Self::schema();
        let mut slots: Vec<Option<Item>> = Vec::new();
        slots.push(encode_slot(self.mkey));
        slots.push(Some(self.mval.encode()));
        slots.push(encode_slot(self.authorized_by));
        let record = Record { slots, extension: None };
        proof {
            assert(record@.slots =~= seq![
                slot_encoding(self.mkey),
                Some(self.mval.encoding()),
                slot_encoding(self.authorized_by),
            ]);
        }
        let entries = encode_record(&schema, record);
        proof {
            lemma_dict_view(entries);
        }
        Item::Dict(entries)
    }

    fn decode(value: Item) -> (r: Result<Self, CodecError>) {
        match value {
            Item::Dict(entries) => {
                proof {
                    lemma_dict_view(entries);
                }
                let schema = Self::schema();
                let record = decode_record(&schema, entries)?;
                let ghost content = record@;
                let mut slots = record.slots;
                let authorized_by = pop_slot(&mut slots);
                let mval = pop_slot(&mut slots);
                let mkey = pop_slot(&mut slots);
                proof {
                    assert(!missing(Self::slots(), content.slots, 1));
                }
                let mkey = decode_slot::<MeasuredElementTypeChoice>(mkey)?;
                let mval = decode_slot::<MeasurementValuesMap>(mval)?;
                let authorized_by = decode_slot::<Vec<u8>>(authorized_by)?;
                match mval {
                    Some(mval) => Ok(MeasurementMap { mkey, mval, authorized_by }),
                    None => Err(CodecError::MissingField(1)),
                }
            },
            _ => Err(CodecError::TypeMismatch { key: None, expected: Shape::Dict }),
        }
    }
}

/// The canonical encoding of a triple: an array of the environment and the
/// measurements claimed of it.
pub open spec fn triple_encoding(
    environment: EnvironmentMap,
    claims: NonEmptyVec<MeasurementMap>,
) -> Tree {
    Tree::Array(seq![environment.encoding(), claims.encoding()])
}

/// What a tree decodes to as a triple: an array of exactly two elements,
/// an environment and a non-empty array of measurements.
pub open spec fn triple_decoding(tree: Tree) -> Result<Tree, Failure> {
    match tree {
        Tree::Array(parts) => if parts.len() != 2 {
            Err(Failure::LengthMismatch { expected: 2, actual: parts.len() as usize })
        } else {
            match EnvironmentMap::decoding(parts[0]) {
                Err(e) => Err(e),
                Ok(environment) => match list_decoding::<MeasurementMap>(parts[1]) {
                    Err(e) => Err(e),
                    Ok(claims) => Ok(Tree::Array(seq![environment, claims])),
                },
            }
        },
        _ => Err(Failure::TypeMismatch { key: None, expected: Shape::Array }),
    }
}

/// A triple whose two parts are in canonical form is in canonical form.
pub proof fn lemma_triple_parts(environment: Tree, claims: Tree)
    requires
        EnvironmentMap::decoding(environment) == Ok::<Tree, Failure>(environment),
        list_decoding::<MeasurementMap>(claims) == Ok::<Tree, Failure>(claims),
    ensures
        triple_decoding(Tree::Array(seq![environment, claims])) == Ok::<Tree, Failure>(
            Tree::Array(seq![environment, claims]),
        ),
{
    let parts = seq![environment, claims];
    assert(parts.len() == 2);
    assert(parts[0] == environment);
    assert(parts[1] == claims);
}

/// Encodes a triple.
pub fn encode_triple(environment: EnvironmentMap, claims: NonEmptyVec<MeasurementMap>) -> (r:
    Item)
    ensures
        r@ == triple_encoding(environment, claims),
{
    let mut parts: Vec<Item> = Vec::new();
    parts.push(environment.encode());
    parts.push(claims.encode());
    proof {
        lemma_array_view(parts);
        assert(trees(parts@) =~= seq![environment.encoding(), claims.encoding()]);
    }
    Item::Array(parts)
}

/// Decodes a triple.
pub fn decode_triple(value: Item) -> (r: Result<
    (EnvironmentMap, NonEmptyVec<MeasurementMap>),
    CodecError,
>)
    ensures
        (match r {
            Ok((environment, claims)) => Ok(triple_encoding(environment, claims)),
            Err(e) => Err(e@),
        }) == triple_decoding(value@),
        r matches Ok((_, claims)) ==> claims.wf(),
{
    match value {
        Item::Array(parts) => {
            proof {
                lemma_array_view(parts);
            }
            let mut parts = parts;
            if parts.len() != 2 {
                return Err(CodecError::LengthMismatch { expected: 2, actual: parts.len() });
            }
            let ghost whole = trees(parts@);
            let second = parts.pop();
            let first = parts.pop();
            match (first, second) {
                (Some(first), Some(second)) => {
                    assert(first@ == whole[0]);
                    assert(second@ == whole[1]);
                    let environment = EnvironmentMap::decode(first)?;
                    let claims = crate::codec::decode_list::<MeasurementMap>(second)?;
                    Ok((environment, claims))
                },
                _ => Err(CodecError::EmptyCollection),
            }
        },
        _ => Err(CodecError::TypeMismatch { key: None, expected: Shape::Array }),
    }
}

impl Codec for ReferenceTripleRecord {
    open spec fn valid(&self) -> bool {
        self.ref_env.valid() && self.ref_claims.valid()
    }

    proof fn lemma_round_trip(&self) {
        self.ref_env.lemma_round_trip();
        self.ref_claims.lemma_round_trip();
        lemma_triple_parts(self.ref_env.encoding(), self.ref_claims.encoding());
        assert(self.encoding() == Tree::Array(
            seq![self.ref_env.encoding(), self.ref_claims.encoding()],
        ));
        assert(Self::decoding(self.encoding()) == triple_decoding(self.encoding()));
    }

    open spec fn encoding(&self) -> Tree {
        triple_encoding(self.ref_env, self.ref_claims)
    }

    open spec fn decoding(tree: Tree) -> Result<Tree, Failure> {
        triple_decoding(tree)
    }

    fn encode(self) -> (r: Item) {
        encode_triple(self.ref_env, self.ref_claims)
    }

    fn decode(value: Item) -> (r: Result<Self, CodecError>) {
        match decode_triple(value) {
            Ok((ref_env, ref_claims)) => Ok(ReferenceTripleRecord { ref_env, ref_claims }),
            Err(e) => Err(e),
        }
    }
}

impl Codec for EndorsedTripleRecord {
    open spec fn valid(&self) -> bool {
        self.condition.valid() && self.endorsement.valid()
    }

    proof fn lemma_round_trip(&self) {
        self.condition.lemma_round_trip();
        self.endorsement.lemma_round_trip();
        lemma_triple_parts(self.condition.encoding(), self.endorsement.encoding());
        assert(self.encoding() == Tree::Array(
            seq![self.condition.encoding(), self.endorsement.encoding()],
        ));
        assert(Self::decoding(self.encoding()) == triple_decoding(self.encoding()));
    }

    open spec fn encoding(&self) -> Tree {
        triple_encoding(self.condition, self.endorsement)
    }

    open spec fn decoding(tree: Tree) -> Result<Tree, Failure> {
        triple_decoding(tree)
    }

    fn encode(self) -> (r: Item) {
        encode_triple(self.condition, self.endorsement)
    }

    fn decode(value: Item) -> (r: Result<Self, CodecError>) {
        match decode_triple(value) {
            Ok((condition, endorsement)) => Ok(EndorsedTripleRecord { condition, endorsement }),
            Err(e) => Err(e),
        }
    }
}

} // verus!
