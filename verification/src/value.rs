use vstd::prelude::*;

verus! {

/// The kind of a structured value, without its contents.
#[derive(Debug, Clone, Copy, PartialEq, Eq, Structural)]
pub enum Shape {
    Integer,
    Bytes,
    Text,
    Array,
    Dict,
    Tag,
    Bool,
    Null,
}

/// A structured value as the primitive read/write layer hands it over.
#[derive(Debug, PartialEq, Eq)]
pub enum Item {
    Integer(i64),
    Bytes(Vec<u8>),
    Text(String),
    Array(Vec<Item>),
    Dict(Vec<Entry>),
    Tag(u64, Box<Item>),
    Bool(bool),
    Null,
}

/// One key/value pair of a map, at its place in the map's order.
#[derive(Debug, PartialEq, Eq)]
pub struct Entry {
    pub key: Item,
    pub value: Item,
}

/// The mathematical content of a `Item`.
pub enum Tree {
    Integer(i64),
    Bytes(Seq<u8>),
    Text(Seq<char>),
    Array(Seq<Tree>),
    Dict(Seq<(Tree, Tree)>),
    Tag(u64, Box<Tree>),
    Bool(bool),
    Null,
}

impl Tree {
    pub open spec fn shape(self) -> Shape {
        match self {
            Tree::Integer(_) => Shape::Integer,
            Tree::Bytes(_) => Shape::Bytes,
            Tree::Text(_) => Shape::Text,
            Tree::Array(_) => Shape::Array,
            Tree::Dict(_) => Shape::Dict,
            Tree::Tag(_, _) => Shape::Tag,
            Tree::Bool(_) => Shape::Bool,
            Tree::Null => Shape::Null,
        }
    }
}

impl Tree {
    /// Whether the tree is nested no more deeply than `limit` levels of
    /// arrays, maps and tags.
    pub open spec fn within_depth(self, limit: nat) -> bool
        decreases self,
    {
        match self {
            Tree::Array(items) => limit > 0 && forall|i: int|
                0 <= i < items.len() ==> (#[trigger] items[i]).within_depth((limit - 1) as nat),
            Tree::Dict(entries) => limit > 0 && forall|i: int|
                0 <= i < entries.len() ==> (#[trigger] entries[i]).0.within_depth(
                    (limit - 1) as nat,
                ) && entries[i].1.within_depth((limit - 1) as nat),
            Tree::Tag(_, inner) => limit > 0 && inner.within_depth((limit - 1) as nat),
            _ => true,
        }
    }
}

impl Item {
    pub open spec fn tree(self) -> Tree
        decreases self,
    {
        match self {
            Item::Integer(i) => Tree::Integer(i),
            Item::Bytes(b) => Tree::Bytes(b@),
            Item::Text(t) => Tree::Text(t@),
            Item::Array(items) => Tree::Array(
                Seq::new(
                    items.len() as nat,
                    |i: int|
                        if 0 <= i < items.len() {
                            items[i].tree()
                        } else {
                            Tree::Null
                        },
                ),
            ),
            Item::Dict(entries) => Tree::Dict(
                Seq::new(
                    entries.len() as nat,
                    |i: int|
                        if 0 <= i < entries.len() {
                            (entries[i].key.tree(), entries[i].value.tree())
                        } else {
                            (Tree::Null, Tree::Null)
                        },
                ),
            ),
            Item::Tag(t, inner) => Tree::Tag(t, Box::new(inner.tree())),
            Item::Bool(b) => Tree::Bool(b),
            Item::Null => Tree::Null,
        }
    }

    /// The kind of this value.
    pub fn shape(&self) -> (r: Shape)
        ensures
            r == self@.shape(),
    {
        match self {
            Item::Integer(_) => Shape::Integer,
            Item::Bytes(_) => Shape::Bytes,
            Item::Text(_) => Shape::Text,
            Item::Array(_) => Shape::Array,
            Item::Dict(_) => Shape::Dict,
            Item::Tag(_, _) => Shape::Tag,
            Item::Bool(_) => Shape::Bool,
            Item::Null => Shape::Null,
        }
    }
}

impl View for Item {
    type V = Tree;

    open spec fn view(&self) -> Tree {
        self.tree()
    }
}

impl View for Entry {
    type V = (Tree, Tree);

    open spec fn view(&self) -> (Tree, Tree) {
        (self.key@, self.value@)
    }
}

/// Whether a value is nested no more deeply than `limit` levels of arrays,
/// maps and tags.
pub fn within_depth(value: &Item, limit: usize) -> (r: bool)
    ensures
        r == value@.within_depth(limit as nat),
    decreases value,
{
    match value {
        Item::Array(items) => {
            if limit == 0 {
                return false;
            }
            let mut i: usize = 0;
            while i < items.len()
                invariant
                    i <= items@.len(),
                    limit > 0,
                    value == Item::Array(*items),
                    forall|j: int|
                        0 <= j < i ==> (#[trigger] items@[j])@.within_depth((limit - 1) as nat),
                decreases items@.len() - i,
            {
                if !within_depth(&items[i], limit - 1) {
                    proof {
                        assert(value@->Array_0[i as int] == items@[i as int]@);
                    }
                    return false;
                }
                i += 1;
            }
            proof {
                assert forall|j: int| 0 <= j < value@->Array_0.len() implies (
                #[trigger] value@->Array_0[j]).within_depth((limit - 1) as nat) by {
                    assert(value@->Array_0[j] == items@[j]@);
                }
            }
            true
        },
        Item::Dict(entries) => {
            if limit == 0 {
                return false;
            }
            let mut i: usize = 0;
            while i < entries.len()
                invariant
                    i <= entries@.len(),
                    limit > 0,
                    value == Item::Dict(*entries),
                    forall|j: int|
                        0 <= j < i ==> (#[trigger] entries@[j]).key@.within_depth(
                            (limit - 1) as nat,
                        ) && entries@[j].value@.within_depth((limit - 1) as nat),
                decreases entries@.len() - i,
            {
                if !within_depth(&entries[i].key, limit - 1) || !within_depth(
                    &entries[i].value,
                    limit - 1,
                ) {
                    proof {
                        assert(value@->Dict_0[i as int] == entries@[i as int]@);
                    }
                    return false;
                }
                i += 1;
            }
            proof {
                assert forall|j: int| 0 <= j < value@->Dict_0.len() implies (
                #[trigger] value@->Dict_0[j]).0.within_depth((limit - 1) as nat)
                    && value@->Dict_0[j].1.within_depth((limit - 1) as nat) by {
                    assert(value@->Dict_0[j] == entries@[j]@);
                }
            }
            true
        },
        Item::Tag(_, inner) => {
            if limit == 0 {
                return false;
            }
            within_depth(inner, limit - 1)
        },
        _ => true,
    }
}

/// The contents of a sequence of values, element by element.
pub open spec fn trees(items: Seq<Item>) -> Seq<Tree> {
    Seq::new(items.len(), |i: int| items[i]@)
}

/// The contents of a sequence of entries, pair by pair.
pub open spec fn pairs(entries: Seq<Entry>) -> Seq<(Tree, Tree)> {
    Seq::new(entries.len(), |i: int| entries[i]@)
}

/// The content of the outcome of a decoding step that yields a value.
pub open spec fn content(r: Result<Item, crate::error::CodecError>) -> Result<
    Tree,
    crate::error::CodecError,
> {
    match r {
        Ok(v) => Ok(v@),
        Err(e) => Err(e),
    }
}

/// An array's content is the contents of its elements, in order.
pub proof fn lemma_array_view(items: Vec<Item>)
    ensures
        Item::Array(items)@ == Tree::Array(trees(items@)),
{
    assert(Item::Array(items)@->Array_0 =~= trees(items@));
}

/// A map's content is the contents of its entries, in order.
pub proof fn lemma_dict_view(entries: Vec<Entry>)
    ensures
        Item::Dict(entries)@ == Tree::Dict(pairs(entries@)),
{
    assert(Item::Dict(entries)@->Dict_0 =~= pairs(entries@));
}

/// Appending an entry appends its content.
pub proof fn lemma_pairs_push(entries: Seq<Entry>, e: Entry)
    ensures
        pairs(entries.push(e)) == pairs(entries).push(e@),
{
    assert(pairs(entries.push(e)) =~= pairs(entries).push(e@));
}

/// Appending a value appends its content.
pub proof fn lemma_trees_push(items: Seq<Item>, v: Item)
    ensures
        trees(items.push(v)) == trees(items).push(v@),
{
    assert(trees(items.push(v)) =~= trees(items).push(v@));
}

} // verus!
