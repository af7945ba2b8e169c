use crate::value::Shape;
use vstd::prelude::*;
use vstd::string::StringExecFns;

verus! {

/// Every way in which a structured value can fail to be a well-formed record.
#[derive(Debug, PartialEq, Eq)]
#[allow(inconsistent_fields)]
pub enum CodecError {
    /// A tagged value carried `actual` where `expected` was required.
    TagMismatch { expected: u64, actual: u64 },
    /// A required slot, named by its reserved key, was never populated.
    MissingField(i64),
    /// A reserved key occurred a second time in the same record.
    DuplicateKey(i64),
    /// A value did not have the declared shape. `key` is the reserved key of
    /// the slot, or `None` where the value is not the value of a map entry.
    TypeMismatch { key: Option<i64>, expected: Shape },
    /// No candidate shape matched; the failures of all candidates, in order.
    NoMatchingVariant(Vec<CodecError>),
    /// A collection that must hold at least one element held none.
    EmptyCollection,
    /// A record that must hold at least one field held none.
    EmptyRecord,
    /// A byte string did not have the one permitted length.
    LengthMismatch { expected: usize, actual: usize },
    /// A value was nested more deeply than the configured limit.
    MaxNestingExceeded,
}

/// The mathematical content of a `CodecError`.
#[allow(inconsistent_fields)]
pub enum Failure {
    TagMismatch { expected: u64, actual: u64 },
    MissingField(i64),
    DuplicateKey(i64),
    TypeMismatch { key: Option<i64>, expected: Shape },
    NoMatchingVariant(Seq<Failure>),
    EmptyCollection,
    EmptyRecord,
    LengthMismatch { expected: usize, actual: usize },
    MaxNestingExceeded,
}

impl CodecError {
    pub open spec fn failure(self) -> Failure
        decreases self,
    {
        match self {
            CodecError::TagMismatch { expected, actual } => Failure::TagMismatch { expected, actual },
            CodecError::MissingField(key) => Failure::MissingField(key),
            CodecError::DuplicateKey(key) => Failure::DuplicateKey(key),
            CodecError::TypeMismatch { key, expected } => Failure::TypeMismatch { key, expected },
            CodecError::NoMatchingVariant(errors) => Failure::NoMatchingVariant(
                Seq::new(
                    errors.len() as nat,
                    |i: int|
                        if 0 <= i < errors.len() {
                            errors[i].failure()
                        } else {
                            Failure::EmptyRecord
                        },
                ),
            ),
            CodecError::EmptyCollection => Failure::EmptyCollection,
            CodecError::EmptyRecord => Failure::EmptyRecord,
            CodecError::LengthMismatch { expected, actual } => Failure::LengthMismatch {
                expected,
                actual,
            },
            CodecError::MaxNestingExceeded => Failure::MaxNestingExceeded,
        }
    }
}

impl View for CodecError {
    type V = Failure;

    open spec fn view(&self) -> Failure {
        self.failure()
    }
}

/// The contents of a sequence of errors, one by one.
pub open spec fn failures_of(errors: Seq<CodecError>) -> Seq<Failure> {
    Seq::new(errors.len(), |i: int| errors[i]@)
}

/// The content of a list of candidate failures is the contents of the
/// failures, in order.
pub proof fn lemma_no_matching_view(errors: Vec<CodecError>)
    ensures
        CodecError::NoMatchingVariant(errors)@ == Failure::NoMatchingVariant(failures_of(errors@)),
{
    assert(CodecError::NoMatchingVariant(errors)@->NoMatchingVariant_0 =~= failures_of(errors@));
}

/// Failures of the conditions that triple records place on their maps.
#[derive(Debug, Clone, Copy, PartialEq, Eq, Structural)]
pub enum TriplesError {
    EmptyTripleRecordCondition,
    EmptyClassMap,
    EmptyEnvironmentMap,
    EmptyMeasurementValuesMap,
    InvalidIpAddrType,
    Unknown,
}

impl TriplesError {
    /// The text of the human-readable message of each error.
    pub open spec fn message_text(self) -> Seq<char> {
        match self {
            TriplesError::InvalidIpAddrType => "invalid IP address type"@,
            TriplesError::EmptyMeasurementValuesMap => "a MeasurementValuesMap must have at least one non-empty field"@,
            TriplesError::EmptyEnvironmentMap => "an EnvironmentMap must have at least one non-empty field"@,
            TriplesError::EmptyClassMap => "a ClassMap must have at least one non-empty field"@,
            TriplesError::EmptyTripleRecordCondition => "a TripleRecord must have at least one non-empty field"@,
            TriplesError::Unknown => "unknown TriplesError encountered"@,
        }
    }

    /// The human-readable message of this error.
    pub fn message(&self) -> (text: String)
        ensures
            text@ == self.message_text(),
    {
        match self {
            TriplesError::InvalidIpAddrType => String::from_str("invalid IP address type"),
            TriplesError::EmptyMeasurementValuesMap => String::from_str(
                "a MeasurementValuesMap must have at least one non-empty field",
            ),
            TriplesError::EmptyEnvironmentMap => String::from_str(
                "an EnvironmentMap must have at least one non-empty field",
            ),
            TriplesError::EmptyClassMap => String::from_str(
                "a ClassMap must have at least one non-empty field",
            ),
            TriplesError::EmptyTripleRecordCondition => String::from_str(
                "a TripleRecord must have at least one non-empty field",
            ),
            TriplesError::Unknown => String::from_str("unknown TriplesError encountered"),
        }
    }
}

} // verus!
