use crate::error::{CodecError, Failure};
use crate::fixed_bytes::FixedBytes;
use crate::non_empty::NonEmptyVec;
use crate::tagged::{unwrap, unwrapped, wrap, wrapped, Tagged};
use crate::value::{
    lemma_array_view, lemma_trees_push, trees, within_depth, Shape, Tree, Item,
};
use vstd::prelude::*;

verus! {

/// A type with a wire form. Its mathematical content is its canonical
/// encoding, so decoding is stated as the canonical form of what was read.
pub trait Codec: Sized {
    /// The canonical encoding of this value.
    spec fn encoding(&self) -> Tree;

    /// The canonical encoding of the value that a tree decodes to, or the
    /// reason why it decodes to none.
    spec fn decoding(tree: Tree) -> Result<Tree, Failure>;

    /// Whether this value is one that travels: what its type asks of its
    /// parts holds.
    spec fn valid(&self) -> bool;

    /// Round trip: a value that travels decodes, from its own encoding, to
    /// itself.
    proof fn lemma_round_trip(&self)
        requires
            self.valid(),
        ensures
            Self::decoding(self.encoding()) == Ok::<Tree, Failure>(self.encoding()),
    ;

    /// Encodes this value.
    fn encode(self) -> (r: Item)
        ensures
            r@ == self.encoding(),
    ;

    /// Decodes a value.
    fn decode(value: Item) -> (r: Result<Self, CodecError>)
        ensures
            (match r {
                Ok(x) => Ok(x.encoding()),
                Err(e) => Err(e@),
            }) == Self::decoding(value@),
    ;
}

/// The outcome of a decoding, with the value replaced by its content.
pub open spec fn outcome<T: Codec>(r: Result<T, CodecError>) -> Result<Tree, Failure> {
    match r {
        Ok(x) => Ok(x.encoding()),
        Err(e) => Err(e@),
    }
}

/// What a tree decodes to under a limit on nesting: nothing when it is
/// nested more deeply than the limit allows, else what it decodes to.
pub open spec fn bounded_decoding<T: Codec>(tree: Tree, limit: nat) -> Result<Tree, Failure> {
    if tree.within_depth(limit) {
        T::decoding(tree)
    } else {
        Err(Failure::MaxNestingExceeded)
    }
}

/// Decodes a value that may be nested no more deeply than `limit` levels
/// of arrays, maps and tags; a deeper one is refused before any of it is
/// read.
pub fn decode_bounded<T: Codec>(value: Item, limit: usize) -> (r: Result<T, CodecError>)
    ensures
        outcome(r) == bounded_decoding::<T>(value@, limit as nat),
{
    if within_depth(&value, limit) {
        T::decode(value)
    } else {
        Err(CodecError::MaxNestingExceeded)
    }
}

/// The encodings of the elements of a sequence, in order.
pub open spec fn encodings<T: Codec>(items: Seq<T>) -> Seq<Tree> {
    Seq::new(items.len(), |i: int| items[i].encoding())
}

/// The canonical encoding of a collection: an array of its elements'
/// encodings, with no other framing.
pub open spec fn list_encoding<T: Codec>(items: Seq<T>) -> Tree {
    Tree::Array(encodings(items))
}

/// The decodings of the first `n` elements, or the first failure among
/// them.
pub open spec fn elements_decoding<T: Codec>(elements: Seq<Tree>, n: int) -> Result<
    Seq<Tree>,
    Failure,
>
    decreases n,
{
    if n <= 0 {
        Ok(Seq::empty())
    } else {
        match elements_decoding::<T>(elements, n - 1) {
            Err(e) => Err(e),
            Ok(done) => match T::decoding(elements[n - 1]) {
                Err(e) => Err(e),
                Ok(t) => Ok(done.push(t)),
            },
        }
    }
}

/// What a tree decodes to as a non-empty collection: an array of at least
/// one element, each of which decodes.
pub open spec fn list_decoding<T: Codec>(tree: Tree) -> Result<Tree, Failure> {
    match tree {
        Tree::Array(elements) => if elements.len() == 0 {
            Err(Failure::EmptyCollection)
        } else {
            match elements_decoding::<T>(elements, elements.len() as int) {
                Ok(done) => Ok(Tree::Array(done)),
                Err(e) => Err(e),
            }
        },
        _ => Err(Failure::TypeMismatch { key: None, expected: Shape::Array }),
    }
}

/// A failure among the first elements is the failure of the whole array.
pub proof fn lemma_element_failure_stays<T: Codec>(elements: Seq<Tree>, k: int, n: int)
    requires
        0 <= k <= n,
        elements_decoding::<T>(elements, k) is Err,
    ensures
        elements_decoding::<T>(elements, n) == elements_decoding::<T>(elements, k),
    decreases n - k,
{
    if k < n {
        lemma_element_failure_stays::<T>(elements, k, n - 1);
    }
}

/// Encodes a vector of values as an array.
pub fn encode_vec<T: Codec>(items: Vec<T>) -> (r: Item)
    ensures
        r@ == list_encoding(items@),
{
    let ghost all = items@;
    let mut out: Vec<Item> = Vec::new();
    proof {
        assert(trees(out@) =~= encodings(all.take(0)));
    }
    for item in it: items
        invariant
            it.seq() == all,
            trees(out@) == encodings(all.take(it.index() as int)),
    {
        let ghost k = it.index() as int;
        let v = item.encode();
        proof {
            lemma_trees_push(out@, v);
            assert(encodings(all.take(k)).push(v@) =~= encodings(all.take(k + 1)));
        }
        out.push(v);
    }
    proof {
        assert(all.take(all.len() as int) =~= all);
        lemma_array_view(out);
    }
    Item::Array(out)
}

/// Encodes a non-empty collection as an array.
pub fn encode_list<T: Codec>(items: NonEmptyVec<T>) -> (r: Item)
    ensures
        r@ == list_encoding(items@),
{
    encode_vec(items.into_vec())
}

/// Decodes an array of at least one element as a non-empty collection.
pub fn decode_list<T: Codec>(value: Item) -> (r: Result<NonEmptyVec<T>, CodecError>)
    ensures
        (match r {
            Ok(c) => Ok(list_encoding(c@)),
            Err(e) => Err(e@),
        }) == list_decoding::<T>(value@),
        r matches Ok(c) ==> c.wf(),
{
    let ghost content = value@;
    match value {
        Item::Array(elements) => {
            proof {
                lemma_array_view(elements);
            }
            if elements.len() == 0 {
                return Err(CodecError::EmptyCollection);
            }
            let ghost all = elements@;
            let ghost whole = trees(all);
            let mut out: Vec<T> = Vec::new();
            proof {
                assert(encodings(out@) =~= Seq::<Tree>::empty());
            }
            for element in it: elements
                invariant
                    it.seq() == all,
                    whole == trees(all),
                    all.len() > 0,
                    out@.len() == it.index(),
                    content == Tree::Array(whole),
                    content == value@,
                    elements_decoding::<T>(whole, it.index() as int) == Ok::<
                        Seq<Tree>,
                        Failure,
                    >(encodings(out@)),
            {
                let ghost k = it.index() as int;
                let ghost before = encodings(out@);
                match T::decode(element) {
                    Ok(item) => {
                        proof {
                            assert(encodings(out@.push(item)) =~= before.push(item.encoding()));
                        }
                        out.push(item);
                    },
                    Err(e) => {
                        proof {
                            lemma_element_failure_stays::<T>(whole, k + 1, whole.len() as int);
                        }
                        return Err(e);
                    },
                }
            }
            match NonEmptyVec::from_vec(out) {
                Ok(c) => Ok(c),
                Err(e) => Err(e),
            }
        },
        _ => Err(CodecError::TypeMismatch { key: None, expected: Shape::Array }),
    }
}

/// Round trip of a collection: where each element decodes from its own
/// encoding to itself, so does the collection, in the same order.
pub proof fn lemma_list_round_trip<T: Codec>(items: Seq<T>)
    requires
        items.len() >= 1,
        forall|i: int|
            0 <= i < items.len() ==> T::decoding((#[trigger] items[i]).encoding()) == Ok::<
                Tree,
                Failure,
            >(items[i].encoding()),
    ensures
        list_decoding::<T>(list_encoding(items)) == Ok::<Tree, Failure>(list_encoding(items)),
{
    lemma_elements_round_trip(items, items.len() as int);
    assert(encodings(items).take(items.len() as int) =~= encodings(items));
}

/// Round trip of the first `n` elements of a collection.
pub proof fn lemma_elements_round_trip<T: Codec>(items: Seq<T>, n: int)
    requires
        0 <= n <= items.len(),
        forall|i: int|
            0 <= i < items.len() ==> T::decoding((#[trigger] items[i]).encoding()) == Ok::<
                Tree,
                Failure,
            >(items[i].encoding()),
    ensures
        elements_decoding::<T>(encodings(items), n) == Ok::<Seq<Tree>, Failure>(
            encodings(items).take(n),
        ),
    decreases n,
{
    if n == 0 {
        assert(encodings(items).take(0) =~= Seq::<Tree>::empty());
    } else {
        lemma_elements_round_trip(items, n - 1);
        assert(encodings(items).take(n - 1).push(items[n - 1].encoding()) =~= encodings(
            items,
        ).take(n));
    }
}

impl Codec for Item {
    open spec fn valid(&self) -> bool {
        true
    }

    proof fn lemma_round_trip(&self) {
    }

    open spec fn encoding(&self) -> Tree {
        self@
    }

    open spec fn decoding(tree: Tree) -> Result<Tree, Failure> {
        Ok(tree)
    }

    /// A value that is carried as it is encodes to itself.
    fn encode(self) -> (r: Item) {
        self
    }

    /// A value that is carried as it is decodes from anything.
    fn decode(value: Item) -> (r: Result<Self, CodecError>) {
        Ok(value)
    }
}

impl Codec for String {
    open spec fn valid(&self) -> bool {
        true
    }

    proof fn lemma_round_trip(&self) {
    }

    open spec fn encoding(&self) -> Tree {
        Tree::Text(self@)
    }

    open spec fn decoding(tree: Tree) -> Result<Tree, Failure> {
        match tree {
            Tree::Text(_) => Ok(tree),
            _ => Err(Failure::TypeMismatch { key: None, expected: Shape::Text }),
        }
    }

    fn encode(self) -> (r: Item) {
        Item::Text(self)
    }

    fn decode(value: Item) -> (r: Result<Self, CodecError>) {
        match value {
            Item::Text(text) => Ok(text),
            _ => Err(CodecError::TypeMismatch { key: None, expected: Shape::Text }),
        }
    }
}

impl Codec for Vec<u8> {
    open spec fn valid(&self) -> bool {
        true
    }

    proof fn lemma_round_trip(&self) {
    }

    open spec fn encoding(&self) -> Tree {
        Tree::Bytes(self@)
    }

    open spec fn decoding(tree: Tree) -> Result<Tree, Failure> {
        match tree {
            Tree::Bytes(_) => Ok(tree),
            _ => Err(Failure::TypeMismatch { key: None, expected: Shape::Bytes }),
        }
    }

    fn encode(self) -> (r: Item) {
        Item::Bytes(self)
    }

    fn decode(value: Item) -> (r: Result<Self, CodecError>) {
        match value {
            Item::Bytes(bytes) => Ok(bytes),
            _ => Err(CodecError::TypeMismatch { key: None, expected: Shape::Bytes }),
        }
    }
}

impl Codec for u32 {
    open spec fn valid(&self) -> bool {
        true
    }

    proof fn lemma_round_trip(&self) {
    }

    open spec fn encoding(&self) -> Tree {
        Tree::Integer(*self as i64)
    }

    open spec fn decoding(tree: Tree) -> Result<Tree, Failure> {
        match tree {
            Tree::Integer(i) => if 0 <= i <= u32::MAX {
                Ok(tree)
            } else {
                Err(Failure::TypeMismatch { key: None, expected: Shape::Integer })
            },
            _ => Err(Failure::TypeMismatch { key: None, expected: Shape::Integer }),
        }
    }

    fn encode(self) -> (r: Item) {
        Item::Integer(self as i64)
    }

    fn decode(value: Item) -> (r: Result<Self, CodecError>) {
        match value {
            Item::Integer(i) => {
                if 0 <= i && i <= 4294967295 {
                    Ok(i as u32)
                } else {
                    Err(CodecError::TypeMismatch { key: None, expected: Shape::Integer })
                }
            },
            _ => Err(CodecError::TypeMismatch { key: None, expected: Shape::Integer }),
        }
    }
}

impl<const N: usize> Codec for FixedBytes<N> {
    open spec fn valid(&self) -> bool {
        true
    }

    proof fn lemma_round_trip(&self) {
        assert(self@.len() == N);
    }

    open spec fn encoding(&self) -> Tree {
        Tree::Bytes(self@)
    }

    open spec fn decoding(tree: Tree) -> Result<Tree, Failure> {
        match FixedBytes::<N>::decoded(tree) {
            Ok(_) => Ok(tree),
            Err(e) => Err(e@),
        }
    }

    fn encode(self) -> (r: Item) {
        FixedBytes::encode(&self)
    }

    fn decode(value: Item) -> (r: Result<Self, CodecError>) {
        FixedBytes::decode(&value)
    }
}

impl<T: Codec, const TAG: u64> Codec for Tagged<T, TAG> {
    open spec fn valid(&self) -> bool {
        self.value.valid()
    }

    proof fn lemma_round_trip(&self) {
        self.value.lemma_round_trip();
    }

    open spec fn encoding(&self) -> Tree {
        wrapped(TAG, self.value.encoding())
    }

    open spec fn decoding(tree: Tree) -> Result<Tree, Failure> {
        match unwrapped(TAG, tree) {
            Ok(inner) => match T::decoding(inner) {
                Ok(t) => Ok(wrapped(TAG, t)),
                Err(e) => Err(e),
            },
            Err(e) => Err(e@),
        }
    }

    /// Always the tag `TAG`, then the wrapped value's own encoding.
    fn encode(self) -> (r: Item) {
        wrap(TAG, self.value.encode())
    }

    /// Refuses every tag but `TAG`; under it, decodes the wrapped value.
    fn decode(value: Item) -> (r: Result<Self, CodecError>) {
        match unwrap(TAG, value) {
            Ok(inner) => match T::decode(inner) {
                Ok(value) => Ok(Tagged { value }),
                Err(e) => Err(e),
            },
            Err(e) => Err(e),
        }
    }
}

impl<T: Codec> Codec for NonEmptyVec<T> {
    open spec fn valid(&self) -> bool {
        &&& self@.len() >= 1
        &&& forall|i: int| 0 <= i < self@.len() ==> (#[trigger] self@[i]).valid()
    }

    proof fn lemma_round_trip(&self) {
        assert forall|i: int| 0 <= i < self@.len() implies T::decoding(
            (#[trigger] self@[i]).encoding(),
        ) == Ok::<Tree, Failure>(self@[i].encoding()) by {
            self@[i].lemma_round_trip();
        }
        lemma_list_round_trip(self@);
    }

    open spec fn encoding(&self) -> Tree {
        list_encoding(self@)
    }

    open spec fn decoding(tree: Tree) -> Result<Tree, Failure> {
        list_decoding::<T>(tree)
    }

    fn encode(self) -> (r: Item) {
        encode_list(self)
    }

    fn decode(value: Item) -> (r: Result<Self, CodecError>) {
        decode_list(value)
    }
}

/// The encoding of an optional field: nothing where the field is absent.
pub open spec fn slot_encoding<T: Codec>(field: Option<T>) -> Option<Tree> {
    match field {
        Some(x) => Some(x.encoding()),
        None => None,
    }
}

/// Whether an optional field travels: it is absent, or what it holds
/// travels.
pub open spec fn slot_valid<T: Codec>(field: Option<T>) -> bool {
    match field {
        Some(x) => x.valid(),
        None => true,
    }
}

/// What a slot decodes to as an optional field of type `T`.
pub open spec fn slot_decoding<T: Codec>(slot: Option<Tree>) -> Result<Option<Tree>, Failure> {
    match slot {
        None => Ok(None),
        Some(t) => match T::decoding(t) {
            Ok(c) => Ok(Some(c)),
            Err(e) => Err(e),
        },
    }
}

/// The content of an optional value.
pub open spec fn option_tree(slot: Option<Item>) -> Option<Tree> {
    match slot {
        Some(v) => Some(v@),
        None => None,
    }
}

/// Encodes an optional field for its slot.
pub fn encode_slot<T: Codec>(field: Option<T>) -> (r: Option<Item>)
    ensures
        option_tree(r) == slot_encoding(field),
{
    match field {
        Some(x) => Some(x.encode()),
        None => None,
    }
}

/// Decodes the content of a slot as an optional field.
pub fn decode_slot<T: Codec>(slot: Option<Item>) -> (r: Result<Option<T>, CodecError>)
    ensures
        (match r {
            Ok(field) => Ok(slot_encoding(field)),
            Err(e) => Err(e@),
        }) == slot_decoding::<T>(option_tree(slot)),
{
    match slot {
        None => Ok(None),
        Some(v) => match T::decode(v) {
            Ok(x) => Ok(Some(x)),
            Err(e) => Err(e),
        },
    }
}

/// Takes the last slot off a list of slots.
pub fn pop_slot(slots: &mut Vec<Option<Item>>) -> (r: Option<Item>)
    requires
        old(slots)@.len() > 0,
    ensures
        r == old(slots)@.last(),
        final(slots)@ == old(slots)@.drop_last(),
{
    match slots.pop() {
        Some(slot) => slot,
        None => None,
    }
}

/// Round trip of an optional field through its slot.
pub proof fn lemma_slot_round_trip<T: Codec>(field: Option<T>)
    requires
        slot_valid(field),
    ensures
        slot_decoding::<T>(slot_encoding(field)) == Ok::<Option<Tree>, Failure>(
            slot_encoding(field),
        ),
{
    match field {
        Some(x) => {
            x.lemma_round_trip();
        },
        None => {},
    }
}

} // verus!
