use crate::error::TriplesError;
use crate::non_empty::NonEmptyVec;
use crate::tagged::Tagged;
use crate::value::Item;
use vstd::prelude::*;

verus! {

/// A byte string under the tag for raw bytes.
pub type TaggedBytes = Tagged<Vec<u8>, 560>;

/// Triple records that this library carries as they are.
pub type IdentityTripleRecord = Item;

pub type AttestKeyTripleRecord = Item;

pub type DomainDependencyTripleRecord = Item;

pub type DomainMembershipTripleRecord = Item;

pub type CoswidTripleRecord = Item;

pub type ConditionalEndorsementSeriesTripleRecord = Item;

pub type ConditionalEndorsementTripleRecord = Item;

/// The content of an optional byte string.
pub open spec fn bytes_view(bytes: Option<Vec<u8>>) -> Option<Seq<u8>> {
    match bytes {
        Some(b) => Some(b@),
        None => None,
    }
}

/// Whether two byte strings hold the same bytes.
pub fn same_bytes(a: &Vec<u8>, b: &Vec<u8>) -> (r: bool)
    ensures
        r == (a@ == b@),
{
    if a.len() != b.len() {
        return false;
    }
    let mut i: usize = 0;
    while i < a.len()
        invariant
            i <= a@.len(),
            a@.len() == b@.len(),
            forall|j: int| 0 <= j < i ==> a@[j] == b@[j],
        decreases a@.len() - i,
    {
        if a[i] != b[i] {
            return false;
        }
        i += 1;
    }
    assert(a@ =~= b@);
    true
}

/// Whether two optional byte strings are both absent or hold the same
/// bytes.
pub fn same_optional_bytes(a: &Option<Vec<u8>>, b: &Option<Vec<u8>>) -> (r: bool)
    ensures
        r == (bytes_view(*a) == bytes_view(*b)),
{
    match (a, b) {
        (Some(x), Some(y)) => same_bytes(x, y),
        (None, None) => true,
        _ => false,
    }
}

/// A copy of a byte string.
pub fn copy_bytes(bytes: &Vec<u8>) -> (r: Vec<u8>)
    ensures
        r@ == bytes@,
{
    let mut out: Vec<u8> = Vec::with_capacity(bytes.len());
    let mut i: usize = 0;
    while i < bytes.len()
        invariant
            i <= bytes@.len(),
            out@ == bytes@.take(i as int),
        decreases bytes@.len() - i,
    {
        out.push(bytes[i]);
        assert(out@ =~= bytes@.take(i + 1));
        i += 1;
    }
    assert(out@ =~= bytes@);
    out
}

/// A copy of an optional byte string.
pub fn copy_optional_bytes(bytes: &Option<Vec<u8>>) -> (r: Option<Vec<u8>>)
    ensures
        bytes_view(r) == bytes_view(*bytes),
{
    match bytes {
        Some(b) => Some(copy_bytes(b)),
        None => None,
    }
}

/// The environment that a claim is about: a class, an instance and a group
/// identifier, of which at least one is given.
#[derive(Debug, PartialEq, Eq)]
pub struct EnvironmentMap {
    pub class: Option<Vec<u8>>,
    pub instance: Option<Vec<u8>>,
    pub group: Option<Vec<u8>>,
}

/// The mathematical content of an `EnvironmentMap`.
pub struct EnvironmentView {
    pub class: Option<Seq<u8>>,
    pub instance: Option<Seq<u8>>,
    pub group: Option<Seq<u8>>,
}

impl View for EnvironmentMap {
    type V = EnvironmentView;

    open spec fn view(&self) -> EnvironmentView {
        EnvironmentView {
            class: bytes_view(self.class),
            instance: bytes_view(self.instance),
            group: bytes_view(self.group),
        }
    }
}

impl EnvironmentMap {
    /// Builds an environment, which must name at least one identifier.
    pub fn new(
        class: Option<Vec<u8>>,
        instance: Option<Vec<u8>>,
        group: Option<Vec<u8>>,
    ) -> (r: Result<Self, TriplesError>)
        ensures
            (class is None && instance is None && group is None) ==> r == Err::<
                Self,
                TriplesError,
            >(TriplesError::EmptyEnvironmentMap),
            !(class is None && instance is None && group is None) ==> r == Ok::<
                Self,
                TriplesError,
            >(EnvironmentMap { class, instance, group }),
    {
        if class.is_none() && instance.is_none() && group.is_none() {
            Err(TriplesError::EmptyEnvironmentMap)
        } else {
            Ok(EnvironmentMap { class, instance, group })
        }
    }

    /// Whether two environments name the same identifiers.
    pub fn same_as(&self, other: &EnvironmentMap) -> (r: bool)
        ensures
            r == (self@ == other@),
    {
        same_optional_bytes(&self.class, &other.class) && same_optional_bytes(
            &self.instance,
            &other.instance,
        ) && same_optional_bytes(&self.group, &other.group)
    }

    /// A copy of this environment.
    pub fn duplicate(&self) -> (r: Self)
        ensures
            r@ == self@,
    {
        EnvironmentMap {
            class: copy_optional_bytes(&self.class),
            instance: copy_optional_bytes(&self.instance),
            group: copy_optional_bytes(&self.group),
        }
    }
}

/// What is measured: a named element or a numbered one.
#[derive(Debug, PartialEq, Eq)]
pub enum MeasuredElementTypeChoice {
    Tstr(String),
    Uint(u32),
}

/// A raw measured value with an optional mask.
#[derive(Debug, PartialEq, Eq)]
pub struct RawValueType {
    pub raw_value: TaggedBytes,
    pub raw_value_mask: Option<Vec<u8>>,
}

/// The measured values of one element.
#[derive(Debug, PartialEq, Eq)]
pub struct MeasurementValuesMap {
    pub svn: Option<u32>,
    pub raw: Option<RawValueType>,
}

impl MeasurementValuesMap {
    /// Builds the values of a measurement, of which at least one must be
    /// given.
    pub fn new(svn: Option<u32>, raw: Option<RawValueType>) -> (r: Result<Self, TriplesError>)
        ensures
            (svn is None && raw is None) ==> r == Err::<Self, TriplesError>(
                TriplesError::EmptyMeasurementValuesMap,
            ),
            !(svn is None && raw is None) ==> r == Ok::<Self, TriplesError>(
                MeasurementValuesMap { svn, raw },
            ),
    {
        if svn.is_none() && raw.is_none() {
            Err(TriplesError::EmptyMeasurementValuesMap)
        } else {
            Ok(MeasurementValuesMap { svn, raw })
        }
    }
}

/// One measurement: what was measured, its values, and who vouches for it.
#[derive(Debug, PartialEq, Eq)]
pub struct MeasurementMap {
    pub mkey: Option<MeasuredElementTypeChoice>,
    pub mval: MeasurementValuesMap,
    pub authorized_by: Option<Vec<u8>>,
}

/// The measurement that holds nothing but raw bytes for one element.
pub open spec fn raw_measurement(
    mkey: MeasuredElementTypeChoice,
    raw_bytes: Vec<u8>,
) -> MeasurementMap {
    MeasurementMap {
        mkey: Some(mkey),
        mval: MeasurementValuesMap {
            svn: None,
            raw: Some(RawValueType { raw_value: Tagged { value: raw_bytes }, raw_value_mask: None }),
        },
        authorized_by: None,
    }
}

impl MeasurementMap {
    /// Builds the measurement that holds nothing but raw bytes for one
    /// element.
    pub fn of_raw_bytes(mkey: MeasuredElementTypeChoice, raw_bytes: Vec<u8>) -> (r: Self)
        ensures
            r == raw_measurement(mkey, raw_bytes),
    {
        MeasurementMap {
            mkey: Some(mkey),
            mval: MeasurementValuesMap {
                svn: None,
                raw: Some(
                    RawValueType { raw_value: Tagged::new(raw_bytes), raw_value_mask: None },
                ),
            },
            authorized_by: None,
        }
    }
}

/// Reference values claimed of one environment.
#[derive(Debug, PartialEq, Eq)]
pub struct ReferenceTripleRecord {
    pub ref_env: EnvironmentMap,
    pub ref_claims: NonEmptyVec<MeasurementMap>,
}

/// Endorsed values claimed under one condition.
#[derive(Debug, PartialEq, Eq)]
pub struct EndorsedTripleRecord {
    pub condition: EnvironmentMap,
    pub endorsement: NonEmptyVec<MeasurementMap>,
}

} // verus!
