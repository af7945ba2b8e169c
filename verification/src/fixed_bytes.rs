use crate::error::CodecError;
use crate::value::{Shape, Tree, Item};
use vstd::prelude::*;

verus! {

/// A byte buffer of exactly `N` bytes.
#[derive(Debug, PartialEq, Eq)]
pub struct FixedBytes<const N: usize>(pub [u8; N]);

impl<const N: usize> View for FixedBytes<N> {
    type V = Seq<u8>;

    open spec fn view(&self) -> Seq<u8> {
        self.0@
    }
}

impl<const N: usize> FixedBytes<N> {
    /// What a byte string becomes: itself when it has `N` bytes, and a
    /// length mismatch naming both lengths otherwise.
    pub open spec fn accepted(bytes: Seq<u8>) -> Result<Seq<u8>, CodecError> {
        if bytes.len() == N {
            Ok(bytes)
        } else {
            Err(CodecError::LengthMismatch { expected: N, actual: bytes.len() as usize })
        }
    }

    /// What a structured value decodes to: a byte string is held to the
    /// length, anything else is of the wrong shape.
    pub open spec fn decoded(tree: Tree) -> Result<Seq<u8>, CodecError> {
        match tree {
            Tree::Bytes(bytes) => Self::accepted(bytes),
            _ => Err(CodecError::TypeMismatch { key: None, expected: Shape::Bytes }),
        }
    }

    /// The outcome of a construction, with the buffer replaced by its bytes.
    pub open spec fn outcome(r: Result<Self, CodecError>) -> Result<Seq<u8>, CodecError> {
        match r {
            Ok(b) => Ok(b@),
            Err(e) => Err(e),
        }
    }

    /// Builds the buffer from a slice, which must hold exactly `N` bytes.
    pub fn from_slice(value: &[u8]) -> (r: Result<Self, CodecError>)
        ensures
            Self::outcome(r) == Self::accepted(value@),
    {
        if value.len() != N {
            return Err(CodecError::LengthMismatch { expected: N, actual: value.len() });
        }
        let mut arr = [0u8;N];
        let mut i: usize = 0;
        while i < N
            invariant
                i <= N,
                value@.len() == N,
                arr@.len() == N,
                forall|j: int| 0 <= j < i ==> arr@[j] == value@[j],
            decreases N - i,
        {
            arr[i] = value[i];
            i += 1;
        }
        assert(arr@ =~= value@);
        Ok(FixedBytes(arr))
    }

    /// The bytes, all `N` of them.
    pub fn as_slice(&self) -> (r: &[u8])
        ensures
            r@ == self@,
            r@.len() == N,
    {
        let r = self.0.as_slice();
        r
    }

    /// A copy of the bytes in a vector of length `N`.
    pub fn to_vec(&self) -> (r: Vec<u8>)
        ensures
            r@ == self@,
            r@.len() == N,
    {
        let mut out: Vec<u8> = Vec::with_capacity(N);
        let mut i: usize = 0;
        while i < N
            invariant
                i <= N,
                self.0@.len() == N,
                out@ == self.0@.take(i as int),
            decreases N - i,
        {
            out.push(self.0[i]);
            assert(out@ =~= self.0@.take(i + 1));
            i += 1;
        }
        assert(out@ =~= self@);
        out
    }

    /// Encodes the buffer as a byte string of exactly `N` bytes.
    pub fn encode(&self) -> (r: Item)
        ensures
            r@ == Tree::Bytes(self@),
            self@.len() == N,
    {
        Item::Bytes(self.to_vec())
    }

    /// Decodes a byte string of exactly `N` bytes.
    pub fn decode(value: &Item) -> (r: Result<Self, CodecError>)
        ensures
            Self::outcome(r) == Self::decoded(value@),
    {
        match value {
            Item::Bytes(bytes) => Self::from_slice(bytes.as_slice()),
            _ => Err(CodecError::TypeMismatch { key: None, expected: Shape::Bytes }),
        }
    }

    /// Only a byte string of exactly `N` bytes decodes; every other length
    /// is a length mismatch; and what was decoded encodes to the same
    /// `N` bytes.
    pub proof fn lemma_exact_length(bytes: Seq<u8>)
        requires
            bytes.len() <= usize::MAX,
        ensures
            bytes.len() == N ==> Self::decoded(Tree::Bytes(bytes)) == Ok::<Seq<u8>, CodecError>(
                bytes,
            ),
            bytes.len() != N ==> Self::decoded(Tree::Bytes(bytes)) == Err::<Seq<u8>, CodecError>(
                CodecError::LengthMismatch { expected: N, actual: bytes.len() as usize },
            ),
    {
    }
}

} // verus!
