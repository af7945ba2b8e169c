use crate::error::CodecError;
use vstd::prelude::*;

verus! {

/// An ordered collection that holds at least one element at all times.
#[derive(Debug, PartialEq, Eq)]
pub struct NonEmptyVec<T> {
    pub(crate) items: Vec<T>,
}

impl<T> View for NonEmptyVec<T> {
    type V = Seq<T>;

    closed spec fn view(&self) -> Seq<T> {
        self.items@
    }
}

impl<T> NonEmptyVec<T> {
    /// The guarantee of the type: there is a first element. Every function
    /// that makes a collection establishes it, and `push` keeps it.
    pub open spec fn wf(&self) -> bool {
        self@.len() >= 1
    }

    /// What a sequence becomes: a collection of the same elements in the
    /// same order when it has any, and an error when it has none.
    pub open spec fn accepted(items: Seq<T>) -> Result<Seq<T>, CodecError> {
        if items.len() == 0 {
            Err(CodecError::EmptyCollection)
        } else {
            Ok(items)
        }
    }

    /// The outcome of a construction, with the collection replaced by its
    /// elements.
    pub open spec fn outcome(r: Result<Self, CodecError>) -> Result<Seq<T>, CodecError> {
        match r {
            Ok(c) => Ok(c@),
            Err(e) => Err(e),
        }
    }

    /// Builds the collection from a vector, which must not be empty.
    pub fn from_vec(items: Vec<T>) -> (r: Result<Self, CodecError>)
        ensures
            Self::outcome(r) == Self::accepted(items@),
            r matches Ok(c) ==> c.wf(),
    {
        if items.len() == 0 {
            Err(CodecError::EmptyCollection)
        } else {
            Ok(NonEmptyVec { items })
        }
    }

    /// The collection of one element.
    pub fn one(item: T) -> (r: Self)
        ensures
            r@ == seq![item],
            r.wf(),
    {
        let mut items: Vec<T> = Vec::new();
        items.push(item);
        NonEmptyVec { items }
    }

    /// Appends an element; the elements already there keep their places.
    pub fn push(&mut self, item: T)
        ensures
            final(self)@ == old(self)@.push(item),
            final(self).wf(),
    {
        self.items.push(item);
    }

    /// The number of elements.
    pub fn len(&self) -> (n: usize)
        ensures
            n == self@.len(),
    {
        self.items.len()
    }

    /// The element at `index`.
    pub fn get(&self, index: usize) -> (r: &T)
        requires
            index < self@.len(),
        ensures
            *r == self@[index as int],
    {
        &self.items[index]
    }

    /// The first element.
    pub fn first(&self) -> (r: &T)
        requires
            self.wf(),
        ensures
            *r == self@[0],
    {
        &self.items[0]
    }

    /// The elements as a slice.
    pub fn as_slice(&self) -> (r: &[T])
        ensures
            r@ == self@,
    {
        self.items.as_slice()
    }

    /// The elements, given up as a plain vector.
    pub fn into_vec(self) -> (r: Vec<T>)
        ensures
            r@ == self@,
    {
        self.items
    }

    /// Zero elements are refused; one or more are accepted in their order,
    /// and appending to an accepted sequence leaves it accepted.
    pub proof fn lemma_non_empty(items: Seq<T>, item: T)
        ensures
            items.len() == 0 ==> Self::accepted(items) == Err::<Seq<T>, CodecError>(
                CodecError::EmptyCollection,
            ),
            items.len() >= 1 ==> Self::accepted(items) == Ok::<Seq<T>, CodecError>(items),
            Self::accepted(items.push(item)) == Ok::<Seq<T>, CodecError>(items.push(item)),
    {
    }
}

} // verus!
