use crate::error::CodecError;
use crate::fixed_bytes::FixedBytes;
use crate::non_empty::NonEmptyVec;
use crate::tagged::Tagged;
use crate::triples::{
    raw_measurement, AttestKeyTripleRecord, ConditionalEndorsementSeriesTripleRecord,
    ConditionalEndorsementTripleRecord, CoswidTripleRecord, DomainDependencyTripleRecord,
    DomainMembershipTripleRecord, EndorsedTripleRecord, EnvironmentMap, EnvironmentView,
    IdentityTripleRecord, MeasuredElementTypeChoice, MeasurementMap, ReferenceTripleRecord,
};
use crate::value::Entry;
use vstd::prelude::*;
use vstd::string::StringExecFns;

verus! {

/// A text string.
pub type Text = String;

/// A text string that identifies something.
pub type Tstr = String;

/// A resource identifier.
pub type Uri = String;

/// The sixteen bytes of a universally unique identifier.
pub type UuidType = FixedBytes<16>;

/// A tag version number.
pub type TagVersionType = u32;

/// Entries under keys that a record's schema does not reserve.
pub type ExtensionMap = Vec<Entry>;

/// A module-identifier record under its format tag.
pub type TaggedConciseMidTag = Tagged<ConciseMidTag, 506>;

/// A module-identifier record.
#[derive(Debug, PartialEq, Eq)]
pub struct ConciseMidTag {
    /// The language of the record's text.
    pub language: Option<Text>,
    /// What identifies this record.
    pub tag_identity: TagIdentityMap,
    /// The entities that stand behind the record.
    pub entities: Option<NonEmptyVec<ComidEntityMap>>,
    /// Other records that this one relates to.
    pub linked_tags: Option<NonEmptyVec<LinkedTagMap>>,
    /// The claims of the record.
    pub triples: TriplesMap,
    /// Entries under unreserved keys.
    pub extension: Option<ExtensionMap>,
}

/// What identifies a record: an identifier and an optional version.
#[derive(Debug, PartialEq, Eq)]
pub struct TagIdentityMap {
    pub tag_id: TagIdTypeChoice,
    pub tag_version: Option<TagVersionType>,
}

/// An identifier: text, or a universally unique identifier.
#[derive(Debug, PartialEq, Eq)]
pub enum TagIdTypeChoice {
    Tstr(Tstr),
    Uuid(UuidType),
}

impl TagIdTypeChoice {
    /// The textual identifier with the given text.
    pub fn from_str(value: &str) -> (r: Self)
        ensures
            r matches TagIdTypeChoice::Tstr(text) && text@ == value@,
    {
        TagIdTypeChoice::Tstr(String::from_str(value))
    }
}

/// An entity that stands behind a record, and in which roles.
#[derive(Debug, PartialEq, Eq)]
pub struct ComidEntityMap {
    pub entity_name: Text,
    pub reg_id: Option<Uri>,
    pub role: NonEmptyVec<ComidRoleTypeChoice>,
    pub extension: Option<ExtensionMap>,
}

/// The roles of an entity towards a module-identifier record.
#[derive(Debug, Clone, Copy, PartialEq, Eq, Structural)]
pub enum ComidRoleTypeChoice {
    TagCreator,
    Creator,
    Maintainer,
}

/// Another record and how this one relates to it.
#[derive(Debug, PartialEq, Eq)]
pub struct LinkedTagMap {
    pub linked_tag_id: TagIdTypeChoice,
    pub tag_rel: TagRelTypeChoice,
}

/// How one record relates to another.
#[derive(Debug, Clone, Copy, PartialEq, Eq, Structural)]
pub enum TagRelTypeChoice {
    Supplements,
    Replaces,
}

/// The claims of a module-identifier record, by kind. A record that is
/// meant to travel holds at least one kind; `TriplesMapBuilder` sees to it.
#[derive(Debug, PartialEq, Eq)]
pub struct TriplesMap {
    pub reference_triples: Option<NonEmptyVec<ReferenceTripleRecord>>,
    pub endorsed_triples: Option<NonEmptyVec<EndorsedTripleRecord>>,
    pub identity_triples: Option<NonEmptyVec<IdentityTripleRecord>>,
    pub attest_key_triples: Option<NonEmptyVec<AttestKeyTripleRecord>>,
    pub dependency_triples: Option<NonEmptyVec<DomainDependencyTripleRecord>>,
    pub membership_triples: Option<NonEmptyVec<DomainMembershipTripleRecord>>,
    pub coswid_triples: Option<NonEmptyVec<CoswidTripleRecord>>,
    pub conditional_endorsement_series_triples: Option<
        NonEmptyVec<ConditionalEndorsementSeriesTripleRecord>,
    >,
    pub conditional_endorsement_triples: Option<NonEmptyVec<ConditionalEndorsementTripleRecord>>,
    pub extension: Option<ExtensionMap>,
}

impl TriplesMap {
    /// The map that holds nothing.
    pub open spec fn vacant() -> TriplesMap {
        TriplesMap {
            reference_triples: None,
            endorsed_triples: None,
            identity_triples: None,
            attest_key_triples: None,
            dependency_triples: None,
            membership_triples: None,
            coswid_triples: None,
            conditional_endorsement_series_triples: None,
            conditional_endorsement_triples: None,
            extension: None,
        }
    }

    /// Whether the map holds no kind of claim and no extension.
    pub open spec fn is_vacant(self) -> bool {
        &&& self.reference_triples is None
        &&& self.endorsed_triples is None
        &&& self.identity_triples is None
        &&& self.attest_key_triples is None
        &&& self.dependency_triples is None
        &&& self.membership_triples is None
        &&& self.coswid_triples is None
        &&& self.conditional_endorsement_series_triples is None
        &&& self.conditional_endorsement_triples is None
        &&& self.extension is None
    }

    /// What finishing a builder in the given state yields: the map, unless
    /// it holds nothing.
    pub open spec fn assembled(state: TriplesMap) -> Result<TriplesMap, CodecError> {
        if state.is_vacant() {
            Err(CodecError::EmptyRecord)
        } else {
            Ok(state)
        }
    }
}

impl Default for TriplesMap {
    fn default() -> (r: Self)
        ensures
            r == TriplesMap::vacant(),
    {
        TriplesMap {
            reference_triples: None,
            endorsed_triples: None,
            identity_triples: None,
            attest_key_triples: None,
            dependency_triples: None,
            membership_triples: None,
            coswid_triples: None,
            conditional_endorsement_series_triples: None,
            conditional_endorsement_triples: None,
            extension: None,
        }
    }
}

/// Collects the kinds of claims of a `TriplesMap` one by one; `build` hands
/// the map out only if something was collected.
pub struct TriplesMapBuilder {
    slots: TriplesMap,
}

impl Default for TriplesMapBuilder {
    fn default() -> (r: Self)
        ensures
            r.state() == TriplesMap::vacant(),
    {
        TriplesMapBuilder::new()
    }
}

impl TriplesMapBuilder {
    /// What has been collected so far.
    pub closed spec fn state(self) -> TriplesMap {
        self.slots
    }

    /// The builder that has collected nothing.
    pub fn new() -> (r: Self)
        ensures
            r.state() == TriplesMap::vacant(),
    {
        TriplesMapBuilder { slots: TriplesMap::default() }
    }

    pub fn reference_triples(self, value: NonEmptyVec<ReferenceTripleRecord>) -> (r: Self)
        ensures
            r.state() == (TriplesMap { reference_triples: Some(value), ..self.state() }),
    {
        let mut next = self;
        next.slots.reference_triples = Some(value);
        next
    }

    pub fn endorsed_triples(self, value: NonEmptyVec<EndorsedTripleRecord>) -> (r: Self)
        ensures
            r.state() == (TriplesMap { endorsed_triples: Some(value), ..self.state() }),
    {
        let mut next = self;
        next.slots.endorsed_triples = Some(value);
        next
    }

    pub fn identity_triples(self, value: NonEmptyVec<IdentityTripleRecord>) -> (r: Self)
        ensures
            r.state() == (TriplesMap { identity_triples: Some(value), ..self.state() }),
    {
        let mut next = self;
        next.slots.identity_triples = Some(value);
        next
    }

    pub fn attest_key_triples(self, value: NonEmptyVec<AttestKeyTripleRecord>) -> (r: Self)
        ensures
            r.state() == (TriplesMap { attest_key_triples: Some(value), ..self.state() }),
    {
        let mut next = self;
        next.slots.attest_key_triples = Some(value);
        next
    }

    pub fn dependency_triples(
        self,
        value: NonEmptyVec<DomainDependencyTripleRecord>,
    ) -> (r: Self)
        ensures
            r.state() == (TriplesMap { dependency_triples: Some(value), ..self.state() }),
    {
        let mut next = self;
        next.slots.dependency_triples = Some(value);
        next
    }

    pub fn membership_triples(
        self,
        value: NonEmptyVec<DomainMembershipTripleRecord>,
    ) -> (r: Self)
        ensures
            r.state() == (TriplesMap { membership_triples: Some(value), ..self.state() }),
    {
        let mut next = self;
        next.slots.membership_triples = Some(value);
        next
    }

    pub fn coswid_triples(self, value: NonEmptyVec<CoswidTripleRecord>) -> (r: Self)
        ensures
            r.state() == (TriplesMap { coswid_triples: Some(value), ..self.state() }),
    {
        let mut next = self;
        next.slots.coswid_triples = Some(value);
        next
    }

    pub fn conditional_endorsement_series_triples(
        self,
        value: NonEmptyVec<ConditionalEndorsementSeriesTripleRecord>,
    ) -> (r: Self)
        ensures
            r.state() == (TriplesMap {
                conditional_endorsement_series_triples: Some(value),
                ..self.state()
            }),
    {
        let mut next = self;
        next.slots.conditional_endorsement_series_triples = Some(value);
        next
    }

    pub fn conditional_endorsement_triples(
        self,
        value: NonEmptyVec<ConditionalEndorsementTripleRecord>,
    ) -> (r: Self)
        ensures
            r.state() == (TriplesMap {
                conditional_endorsement_triples: Some(value),
                ..self.state()
            }),
    {
        let mut next = self;
        next.slots.conditional_endorsement_triples = Some(value);
        next
    }

    pub fn extension(self, value: ExtensionMap) -> (r: Self)
        ensures
            r.state() == (TriplesMap { extension: Some(value), ..self.state() }),
    {
        let mut next = self;
        next.slots.extension = Some(value);
        next
    }

    /// Hands out the map with everything that was collected, or fails if
    /// nothing was.
    pub fn build(self) -> (r: Result<TriplesMap, CodecError>)
        ensures
            r == TriplesMap::assembled(self.state()),
    {
        if self.slots.reference_triples.is_none() && self.slots.endorsed_triples.is_none()
            && self.slots.identity_triples.is_none() && self.slots.attest_key_triples.is_none()
            && self.slots.dependency_triples.is_none() && self.slots.membership_triples.is_none()
            && self.slots.coswid_triples.is_none()
            && self.slots.conditional_endorsement_series_triples.is_none()
            && self.slots.conditional_endorsement_triples.is_none()
            && self.slots.extension.is_none() {
            return Err(CodecError::EmptyRecord);
        }
        Ok(self.slots)
    }
}

/// A builder that has collected nothing yields no map; a builder that has
/// collected anything yields the map with exactly what it collected; and
/// setting any one slot, on whatever was collected before, makes the
/// builder yield a map.
pub proof fn lemma_builder_totality(state: TriplesMap)
    ensures
        TriplesMap::assembled(TriplesMap::vacant()) == Err::<TriplesMap, CodecError>(
            CodecError::EmptyRecord,
        ),
        !state.is_vacant() ==> TriplesMap::assembled(state) == Ok::<TriplesMap, CodecError>(state),
        state.is_vacant() ==> TriplesMap::assembled(state) == Err::<TriplesMap, CodecError>(
            CodecError::EmptyRecord,
        ),
        forall|v: NonEmptyVec<ReferenceTripleRecord>|
            #[trigger] TriplesMap::assembled(TriplesMap { reference_triples: Some(v), ..state }) == Ok::<
                TriplesMap,
                CodecError,
            >(TriplesMap { reference_triples: Some(v), ..state }),
        forall|v: NonEmptyVec<EndorsedTripleRecord>|
            #[trigger] TriplesMap::assembled(TriplesMap { endorsed_triples: Some(v), ..state }) == Ok::<
                TriplesMap,
                CodecError,
            >(TriplesMap { endorsed_triples: Some(v), ..state }),
        forall|v: NonEmptyVec<IdentityTripleRecord>|
            #[trigger] TriplesMap::assembled(TriplesMap { identity_triples: Some(v), ..state }) == Ok::<
                TriplesMap,
                CodecError,
            >(TriplesMap { identity_triples: Some(v), ..state }),
        forall|v: NonEmptyVec<AttestKeyTripleRecord>|
            #[trigger] TriplesMap::assembled(TriplesMap { attest_key_triples: Some(v), ..state }) == Ok::<
                TriplesMap,
                CodecError,
            >(TriplesMap { attest_key_triples: Some(v), ..state }),
        forall|v: NonEmptyVec<DomainDependencyTripleRecord>|
            #[trigger] TriplesMap::assembled(TriplesMap { dependency_triples: Some(v), ..state }) == Ok::<
                TriplesMap,
                CodecError,
            >(TriplesMap { dependency_triples: Some(v), ..state }),
        forall|v: NonEmptyVec<DomainMembershipTripleRecord>|
            #[trigger] TriplesMap::assembled(TriplesMap { membership_triples: Some(v), ..state }) == Ok::<
                TriplesMap,
                CodecError,
            >(TriplesMap { membership_triples: Some(v), ..state }),
        forall|v: NonEmptyVec<CoswidTripleRecord>|
            #[trigger] TriplesMap::assembled(TriplesMap { coswid_triples: Some(v), ..state }) == Ok::<
                TriplesMap,
                CodecError,
            >(TriplesMap { coswid_triples: Some(v), ..state }),
        forall|v: NonEmptyVec<ConditionalEndorsementSeriesTripleRecord>|
            #[trigger] TriplesMap::assembled(TriplesMap { conditional_endorsement_series_triples: Some(v), ..state }) == Ok::<
                TriplesMap,
                CodecError,
            >(TriplesMap { conditional_endorsement_series_triples: Some(v), ..state }),
        forall|v: NonEmptyVec<ConditionalEndorsementTripleRecord>|
            #[trigger] TriplesMap::assembled(TriplesMap { conditional_endorsement_triples: Some(v), ..state }) == Ok::<
                TriplesMap,
                CodecError,
            >(TriplesMap { conditional_endorsement_triples: Some(v), ..state }),
        forall|v: ExtensionMap|
            #[trigger] TriplesMap::assembled(TriplesMap { extension: Some(v), ..state }) == Ok::<
                TriplesMap,
                CodecError,
            >(TriplesMap { extension: Some(v), ..state }),
{
}

/// The records of an optional collection, none where it is absent.
pub open spec fn reference_records(
    list: Option<NonEmptyVec<ReferenceTripleRecord>>,
) -> Seq<ReferenceTripleRecord> {
    match list {
        Some(c) => c@,
        None => Seq::empty(),
    }
}

/// The records of an optional collection, none where it is absent.
pub open spec fn endorsed_records(
    list: Option<NonEmptyVec<EndorsedTripleRecord>>,
) -> Seq<EndorsedTripleRecord> {
    match list {
        Some(c) => c@,
        None => Seq::empty(),
    }
}

/// Whether record `i` is the first one about the environment.
pub open spec fn first_reference_about(
    records: Seq<ReferenceTripleRecord>,
    environment: EnvironmentView,
    i: int,
) -> bool {
    &&& 0 <= i < records.len()
    &&& records[i].ref_env@ == environment
    &&& forall|j: int| 0 <= j < i ==> (#[trigger] records[j]).ref_env@ != environment
}

/// Whether no record is about the environment.
pub open spec fn no_reference_about(
    records: Seq<ReferenceTripleRecord>,
    environment: EnvironmentView,
) -> bool {
    forall|j: int| 0 <= j < records.len() ==> (#[trigger] records[j]).ref_env@ != environment
}

/// Whether record `i` is the first one under the condition.
pub open spec fn first_endorsed_under(
    records: Seq<EndorsedTripleRecord>,
    condition: EnvironmentView,
    i: int,
) -> bool {
    &&& 0 <= i < records.len()
    &&& records[i].condition@ == condition
    &&& forall|j: int| 0 <= j < i ==> (#[trigger] records[j]).condition@ != condition
}

/// Whether no record is under the condition.
pub open spec fn no_endorsed_under(
    records: Seq<EndorsedTripleRecord>,
    condition: EnvironmentView,
) -> bool {
    forall|j: int| 0 <= j < records.len() ==> (#[trigger] records[j]).condition@ != condition
}

/// Whether `after` is `before` with one measurement added for the
/// environment: appended to the claims of the first record about that
/// environment, or, where there is none, as the one claim of a new last
/// record about it. Every other record stays as it was.
pub open spec fn reference_added(
    before: Seq<ReferenceTripleRecord>,
    after: Seq<ReferenceTripleRecord>,
    environment: EnvironmentView,
    measurement: MeasurementMap,
) -> bool {
    &&& forall|i: int| #[trigger]
        first_reference_about(before, environment, i) ==> {
            &&& after.len() == before.len()
            &&& after[i].ref_env == before[i].ref_env
            &&& after[i].ref_claims@ == before[i].ref_claims@.push(measurement)
            &&& forall|j: int| 0 <= j < before.len() && j != i ==> after[j] == before[j]
        }
    &&& no_reference_about(before, environment) ==> {
        &&& after.len() == before.len() + 1
        &&& forall|j: int| 0 <= j < before.len() ==> after[j] == before[j]
        &&& after[before.len() as int].ref_env@ == environment
        &&& after[before.len() as int].ref_claims@ == seq![measurement]
    }
}

/// Whether `after` is `before` with one measurement added under the
/// condition: appended to the endorsement of the first record under that
/// condition, or, where there is none, as the one endorsement of a new last
/// record under it. Every other record stays as it was.
pub open spec fn endorsement_added(
    before: Seq<EndorsedTripleRecord>,
    after: Seq<EndorsedTripleRecord>,
    condition: EnvironmentView,
    measurement: MeasurementMap,
) -> bool {
    &&& forall|i: int| #[trigger]
        first_endorsed_under(before, condition, i) ==> {
            &&& after.len() == before.len()
            &&& after[i].condition == before[i].condition
            &&& after[i].endorsement@ == before[i].endorsement@.push(measurement)
            &&& forall|j: int| 0 <= j < before.len() && j != i ==> after[j] == before[j]
        }
    &&& no_endorsed_under(before, condition) ==> {
        &&& after.len() == before.len() + 1
        &&& forall|j: int| 0 <= j < before.len() ==> after[j] == before[j]
        &&& after[before.len() as int].condition@ == condition
        &&& after[before.len() as int].endorsement@ == seq![measurement]
    }
}

/// The place of the first record about the environment, if there is one.
pub fn find_reference(records: &Vec<ReferenceTripleRecord>, environment: &EnvironmentMap) -> (r:
    Option<usize>)
    ensures
        r matches Some(i) ==> first_reference_about(records@, environment@, i as int),
        r is None ==> no_reference_about(records@, environment@),
{
    let mut i: usize = 0;
    while i < records.len()
        invariant
            i <= records@.len(),
            forall|j: int| 0 <= j < i ==> (#[trigger] records@[j]).ref_env@ != environment@,
        decreases records@.len() - i,
    {
        if records[i].ref_env.same_as(environment) {
            return Some(i);
        }
        i += 1;
    }
    None
}

/// The place of the first record under the condition, if there is one.
pub fn find_endorsed(records: &Vec<EndorsedTripleRecord>, condition: &EnvironmentMap) -> (r:
    Option<usize>)
    ensures
        r matches Some(i) ==> first_endorsed_under(records@, condition@, i as int),
        r is None ==> no_endorsed_under(records@, condition@),
{
    let mut i: usize = 0;
    while i < records.len()
        invariant
            i <= records@.len(),
            forall|j: int| 0 <= j < i ==> (#[trigger] records@[j]).condition@ != condition@,
        decreases records@.len() - i,
    {
        if records[i].condition.same_as(condition) {
            return Some(i);
        }
        i += 1;
    }
    None
}

impl ConciseMidTag {
    /// Adds raw bytes as a reference value of one element of an
    /// environment. The bytes join the claims of the first reference
    /// record about that environment; where there is none, a new record
    /// about it is appended. Nothing else in the record changes.
    pub fn add_reference_raw_value(
        &mut self,
        environment: &EnvironmentMap,
        mkey: MeasuredElementTypeChoice,
        raw_bytes: Vec<u8>,
    )
        ensures
            final(self).triples.reference_triples matches Some(c) && c.wf(),
            reference_added(
                reference_records(old(self).triples.reference_triples),
                reference_records(final(self).triples.reference_triples),
                environment@,
                raw_measurement(mkey, raw_bytes),
            ),
            *final(self) == (ConciseMidTag {
                triples: TriplesMap {
                    reference_triples: final(self).triples.reference_triples,
                    ..old(self).triples
                },
                ..*old(self)
            }),
    {
        let measurement = MeasurementMap::of_raw_bytes(mkey, raw_bytes);
        let mut records: Vec<ReferenceTripleRecord> = match self.triples.reference_triples.take() {
            Some(c) => c.into_vec(),
            None => Vec::new(),
        };
        let ghost before = records@;
        match find_reference(&records, environment) {
            Some(i) => {
                records[i].ref_claims.push(measurement);
                proof {
                    assert forall|k: int| #[trigger]
                        first_reference_about(before, environment@, k) implies k == i by {
                        if k < i {
                            assert(before[k].ref_env@ != environment@);
                        } else if i < k {
                            assert(before[i as int].ref_env@ != environment@);
                        }
                    }
                    assert(!no_reference_about(before, environment@)) by {
                        assert(before[i as int].ref_env@ == environment@);
                    }
                }
            },
            None => {
                records.push(
                    ReferenceTripleRecord {
                        ref_env: environment.duplicate(),
                        ref_claims: NonEmptyVec::one(measurement),
                    },
                );
                proof {
                    assert forall|k: int| !#[trigger] first_reference_about(
                        before,
                        environment@,
                        k,
                    ) by {
                        if 0 <= k < before.len() {
                            assert(before[k].ref_env@ != environment@);
                        }
                    }
                }
            },
        }
        match NonEmptyVec::from_vec(records) {
            Ok(c) => {
                self.triples.reference_triples = Some(c);
            },
            Err(_) => {},
        }
    }

    /// Adds raw bytes as an endorsed value of one element under a
    /// condition. The bytes join the endorsement of the first endorsed
    /// record under that condition; where there is none, a new record under
    /// it is appended. Nothing else in the record changes.
    pub fn add_endorsement_raw_value(
        &mut self,
        environment: &EnvironmentMap,
        mkey: MeasuredElementTypeChoice,
        raw_bytes: Vec<u8>,
    )
        ensures
            final(self).triples.endorsed_triples matches Some(c) && c.wf(),
            endorsement_added(
                endorsed_records(old(self).triples.endorsed_triples),
                endorsed_records(final(self).triples.endorsed_triples),
                environment@,
                raw_measurement(mkey, raw_bytes),
            ),
            *final(self) == (ConciseMidTag {
                triples: TriplesMap {
                    endorsed_triples: final(self).triples.endorsed_triples,
                    ..old(self).triples
                },
                ..*old(self)
            }),
    {
        let measurement = MeasurementMap::of_raw_bytes(mkey, raw_bytes);
        let mut records: Vec<EndorsedTripleRecord> = match self.triples.endorsed_triples.take() {
            Some(c) => c.into_vec(),
            None => Vec::new(),
        };
        let ghost before = records@;
        match find_endorsed(&records, environment) {
            Some(i) => {
                records[i].endorsement.push(measurement);
                proof {
                    assert forall|k: int| #[trigger]
                        first_endorsed_under(before, environment@, k) implies k == i by {
                        if k < i {
                            assert(before[k].condition@ != environment@);
                        } else if i < k {
                            assert(before[i as int].condition@ != environment@);
                        }
                    }
                    assert(!no_endorsed_under(before, environment@)) by {
                        assert(before[i as int].condition@ == environment@);
                    }
                }
            },
            None => {
                records.push(
                    EndorsedTripleRecord {
                        condition: environment.duplicate(),
                        endorsement: NonEmptyVec::one(measurement),
                    },
                );
                proof {
                    assert forall|k: int| !#[trigger] first_endorsed_under(
                        before,
                        environment@,
                        k,
                    ) by {
                        if 0 <= k < before.len() {
                            assert(before[k].condition@ != environment@);
                        }
                    }
                }
            },
        }
        match NonEmptyVec::from_vec(records) {
            Ok(c) => {
                self.triples.endorsed_triples = Some(c);
            },
            Err(_) => {},
        }
    }
}

} // verus!
