use crate::error::{failures_of, lemma_no_matching_view, CodecError, Failure};
use crate::value::{Shape, Tree, Item};
use vstd::prelude::*;

verus! {

/// The structure by which one candidate of an alternative is recognised.
#[derive(Debug, Clone, Copy, PartialEq, Eq)]
pub enum Form {
    /// Any value of this shape.
    Plain(Shape),
    /// A byte string of exactly this length.
    FixedBytes(usize),
    /// A value under this tag whose content has this shape.
    Tagged(u64, Shape),
    /// A byte string of exactly this length under this tag.
    TaggedFixedBytes(u64, usize),
}

/// Why a byte string content of the wrong kind or length is refused, if it
/// is.
pub open spec fn bytes_mismatch(length: usize, tree: Tree) -> Option<CodecError> {
    match tree {
        Tree::Bytes(bytes) => if bytes.len() == length {
            None
        } else {
            Some(CodecError::LengthMismatch { expected: length, actual: bytes.len() as usize })
        },
        _ => Some(CodecError::TypeMismatch { key: None, expected: Shape::Bytes }),
    }
}

/// Why a value of the wrong shape is refused, if it is.
pub open spec fn shape_mismatch(shape: Shape, tree: Tree) -> Option<CodecError> {
    if tree.shape() == shape {
        None
    } else {
        Some(CodecError::TypeMismatch { key: None, expected: shape })
    }
}

/// Why a value does not have a form: `None` when it has it.
pub open spec fn mismatch(form: Form, tree: Tree) -> Option<CodecError> {
    match form {
        Form::Plain(shape) => shape_mismatch(shape, tree),
        Form::FixedBytes(length) => bytes_mismatch(length, tree),
        Form::Tagged(tag, shape) => match tree {
            Tree::Tag(actual, inner) => if actual == tag {
                shape_mismatch(shape, *inner)
            } else {
                Some(CodecError::TagMismatch { expected: tag, actual })
            },
            _ => Some(CodecError::TypeMismatch { key: None, expected: Shape::Tag }),
        },
        Form::TaggedFixedBytes(tag, length) => match tree {
            Tree::Tag(actual, inner) => if actual == tag {
                bytes_mismatch(length, *inner)
            } else {
                Some(CodecError::TagMismatch { expected: tag, actual })
            },
            _ => Some(CodecError::TypeMismatch { key: None, expected: Shape::Tag }),
        },
    }
}

/// Whether candidate `i` is the first one whose form the value has.
pub open spec fn is_first_match(candidates: Seq<Form>, tree: Tree, i: int) -> bool {
    &&& 0 <= i < candidates.len()
    &&& mismatch(candidates[i], tree) is None
    &&& forall|j: int| 0 <= j < i ==> mismatch(#[trigger] candidates[j], tree) is Some
}

/// Whether the value has the form of none of the candidates.
pub open spec fn no_match(candidates: Seq<Form>, tree: Tree) -> bool {
    forall|j: int| 0 <= j < candidates.len() ==> mismatch(#[trigger] candidates[j], tree) is Some
}

/// The failure of every candidate, in the candidates' order.
pub open spec fn failures(candidates: Seq<Form>, tree: Tree) -> Seq<CodecError> {
    Seq::new(candidates.len(), |j: int| mismatch(candidates[j], tree)->Some_0)
}

/// Whether `r` is the resolution of the value among the candidates: the
/// place of the first candidate whose form it has, or, when it has the form
/// of none, the failures of all of them.
pub open spec fn resolves_to(candidates: Seq<Form>, tree: Tree, r: Result<usize, CodecError>) -> bool {
    match r {
        Ok(i) => is_first_match(candidates, tree, i as int),
        Err(CodecError::NoMatchingVariant(errors)) => no_match(candidates, tree) && errors@
            == failures(candidates, tree),
        Err(_) => false,
    }
}

fn check_bytes(length: usize, value: &Item) -> (r: Option<CodecError>)
    ensures
        r == bytes_mismatch(length, value@),
{
    match value {
        Item::Bytes(bytes) => {
            if bytes.len() == length {
                None
            } else {
                Some(CodecError::LengthMismatch { expected: length, actual: bytes.len() })
            }
        },
        _ => Some(CodecError::TypeMismatch { key: None, expected: Shape::Bytes }),
    }
}

fn check_shape(shape: Shape, value: &Item) -> (r: Option<CodecError>)
    ensures
        r == shape_mismatch(shape, value@),
{
    if value.shape() == shape {
        None
    } else {
        Some(CodecError::TypeMismatch { key: None, expected: shape })
    }
}

/// Holds a value against one form.
pub fn check(form: &Form, value: &Item) -> (r: Option<CodecError>)
    ensures
        r == mismatch(*form, value@),
{
    match form {
        Form::Plain(shape) => check_shape(*shape, value),
        Form::FixedBytes(length) => check_bytes(*length, value),
        Form::Tagged(tag, shape) => match value {
            Item::Tag(actual, inner) => {
                if *actual == *tag {
                    check_shape(*shape, inner)
                } else {
                    Some(CodecError::TagMismatch { expected: *tag, actual: *actual })
                }
            },
            _ => Some(CodecError::TypeMismatch { key: None, expected: Shape::Tag }),
        },
        Form::TaggedFixedBytes(tag, length) => match value {
            Item::Tag(actual, inner) => {
                if *actual == *tag {
                    check_bytes(*length, inner)
                } else {
                    Some(CodecError::TagMismatch { expected: *tag, actual: *actual })
                }
            },
            _ => Some(CodecError::TypeMismatch { key: None, expected: Shape::Tag }),
        },
    }
}

/// Resolves a value among candidates by structure alone: tries each in the
/// given order and settles on the first whose form the value has.
pub fn resolve(candidates: &Vec<Form>, value: &Item) -> (r: Result<usize, CodecError>)
    ensures
        resolves_to(candidates@, value@, r),
        r is Err <==> no_match(candidates@, value@),
{
    let mut errors: Vec<CodecError> = Vec::new();
    let mut i: usize = 0;
    while i < candidates.len()
        invariant
            i <= candidates@.len(),
            errors@.len() == i,
            forall|j: int| 0 <= j < i ==> mismatch(#[trigger] candidates@[j], value@) == Some(errors@[j]),
        decreases candidates@.len() - i,
    {
        match check(&candidates[i], value) {
            None => {
                return Ok(i);
            },
            Some(e) => {
                errors.push(e);
            },
        }
        i += 1;
    }
    proof {
        assert(errors@ =~= failures(candidates@, value@));
    }
    Err(CodecError::NoMatchingVariant(errors))
}

/// Determinism: a value that has the form of exactly one candidate resolves
/// to that candidate, wherever it stands among the others. Two candidate
/// lists that hold it, each with no other match, settle on the same form.
pub proof fn lemma_unique_match(
    candidates: Seq<Form>,
    reordered: Seq<Form>,
    tree: Tree,
    i: int,
    k: int,
)
    requires
        0 <= i < candidates.len(),
        0 <= k < reordered.len(),
        reordered[k] == candidates[i],
        mismatch(candidates[i], tree) is None,
        forall|j: int| 0 <= j < candidates.len() && j != i ==> mismatch(candidates[j], tree) is Some,
        forall|j: int| 0 <= j < reordered.len() && j != k ==> mismatch(reordered[j], tree) is Some,
    ensures
        is_first_match(candidates, tree, i),
        is_first_match(reordered, tree, k),
        forall|r: Result<usize, CodecError>| resolves_to(candidates, tree, r) ==> r == Ok::<usize, CodecError>(i as usize),
        forall|r: Result<usize, CodecError>| resolves_to(reordered, tree, r) ==> r == Ok::<usize, CodecError>(k as usize),
{
    assert forall|r: Result<usize, CodecError>| resolves_to(candidates, tree, r) implies r == Ok::<
        usize,
        CodecError,
    >(i as usize) by {
        lemma_resolution_settled(candidates, tree, i, r);
    }
    assert forall|r: Result<usize, CodecError>| resolves_to(reordered, tree, r) implies r == Ok::<
        usize,
        CodecError,
    >(k as usize) by {
        lemma_resolution_settled(reordered, tree, k, r);
    }
}

/// Where a candidate is the first match, the resolution is its place.
pub proof fn lemma_resolution_settled(
    candidates: Seq<Form>,
    tree: Tree,
    i: int,
    r: Result<usize, CodecError>,
)
    requires
        is_first_match(candidates, tree, i),
        resolves_to(candidates, tree, r),
    ensures
        r matches Ok(at) && at == i,
{
    match r {
        Ok(at) => {
            if at < i {
                assert(mismatch(candidates[at as int], tree) is Some);
            } else if i < at {
                assert(mismatch(candidates[i], tree) is Some);
            }
        },
        Err(_) => {
            assert(mismatch(candidates[i], tree) is Some);
        },
    }
}

/// A value that has the form of no candidate is refused with one failure
/// for every candidate that was tried.
pub proof fn lemma_no_match(candidates: Seq<Form>, tree: Tree, r: Result<usize, CodecError>)
    requires
        no_match(candidates, tree),
        resolves_to(candidates, tree, r),
    ensures
        r matches Err(CodecError::NoMatchingVariant(errors)) && errors@.len() == candidates.len()
            && forall|j: int|
            0 <= j < candidates.len() ==> mismatch(candidates[j], tree) == Some(errors@[j]),
{
    match r {
        Ok(at) => {
            assert(mismatch(candidates[at as int], tree) is Some);
        },
        Err(_) => {},
    }
}

/// The content of each candidate's failure, in the candidates' order.
pub open spec fn refusals(candidates: Seq<Form>, tree: Tree) -> Seq<Failure> {
    Seq::new(candidates.len(), |j: int| mismatch(candidates[j], tree)->Some_0@)
}

/// The content of the error of a resolution that found no match.
pub proof fn lemma_refusal_view(candidates: Seq<Form>, tree: Tree, e: CodecError)
    requires
        resolves_to(candidates, tree, Err(e)),
    ensures
        e@ == Failure::NoMatchingVariant(refusals(candidates, tree)),
{
    let errors = e->NoMatchingVariant_0;
    lemma_no_matching_view(errors);
    assert(failures_of(errors@) =~= refusals(candidates, tree));
}

} // verus!
