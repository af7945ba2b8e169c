use crate::error::CodecError;
use crate::value::{content, Shape, Tree, Item};
use vstd::prelude::*;

verus! {

/// A value that is written under the format tag `TAG` and read back only
/// from under that tag.
#[derive(Debug, PartialEq, Eq)]
pub struct Tagged<T, const TAG: u64> {
    pub value: T,
}

impl<T, const TAG: u64> Tagged<T, TAG> {
    /// Wraps a value.
    pub fn new(value: T) -> (r: Self)
        ensures
            r.value == value,
    {
        Tagged { value }
    }

    /// The tag under which the value travels.
    pub fn tag(&self) -> (r: u64)
        ensures
            r == TAG,
    {
        TAG
    }

    /// The wrapped value.
    pub fn as_ref(&self) -> (r: &T)
        ensures
            *r == self.value,
    {
        &self.value
    }

    /// Unwraps the value.
    pub fn into_inner(self) -> (r: T)
        ensures
            r == self.value,
    {
        self.value
    }
}

/// A value under a tag: the tag number, then the value, nothing else.
pub open spec fn wrapped(tag: u64, inner: Tree) -> Tree {
    Tree::Tag(tag, Box::new(inner))
}

/// What reading a value from under the tag `expected` yields: the inner
/// value when the tag is the expected one, a tag mismatch naming both tags
/// when it is another, and a shape mismatch when the value has no tag.
pub open spec fn unwrapped(expected: u64, tree: Tree) -> Result<Tree, CodecError> {
    match tree {
        Tree::Tag(actual, inner) => if actual == expected {
            Ok(*inner)
        } else {
            Err(CodecError::TagMismatch { expected, actual })
        },
        _ => Err(CodecError::TypeMismatch { key: None, expected: Shape::Tag }),
    }
}

/// Puts a value under a tag.
pub fn wrap(tag: u64, value: Item) -> (r: Item)
    ensures
        r@ == wrapped(tag, value@),
{
    Item::Tag(tag, Box::new(value))
}

/// Takes a value from under the tag `expected`.
pub fn unwrap(expected: u64, value: Item) -> (r: Result<Item, CodecError>)
    ensures
        content(r) == unwrapped(expected, value@),
{
    match value {
        Item::Tag(actual, inner) => {
            if actual == expected {
                Ok(*inner)
            } else {
                Err(CodecError::TagMismatch { expected, actual })
            }
        },
        _ => Err(CodecError::TypeMismatch { key: None, expected: Shape::Tag }),
    }
}

/// A wrapped value carries exactly the tag it was wrapped with; it is read
/// back unchanged under that tag and refused under any other.
pub proof fn lemma_tag_fidelity(tag: u64, other: u64, inner: Tree)
    ensures
        wrapped(tag, inner) matches Tree::Tag(t, v) && t == tag && *v == inner,
        unwrapped(tag, wrapped(tag, inner)) == Ok::<Tree, CodecError>(inner),
        other != tag ==> unwrapped(other, wrapped(tag, inner)) == Err::<Tree, CodecError>(
            CodecError::TagMismatch { expected: other, actual: tag },
        ),
{
}

} // verus!
