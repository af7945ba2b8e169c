use crate::error::CodecError;
use crate::value::{lemma_pairs_push, pairs, Entry, Shape, Tree, Item};
use vstd::prelude::*;

verus! {

/// One reserved key of a record type: the key, the name of the field it
/// stands for, the shape its value must have (`None` where the field takes
/// one of several shapes and settles that itself), and whether it must
/// occur.
#[derive(Debug, Clone, Copy, PartialEq, Eq)]
pub struct Slot {
    pub key: i64,
    pub name: &'static str,
    pub shape: Option<Shape>,
    pub required: bool,
}

/// A record read against a schema: one place per declared slot, in the
/// schema's order, and the entries under keys that the schema does not
/// reserve, in the order in which they came.
#[derive(Debug, PartialEq, Eq)]
pub struct Record {
    pub slots: Vec<Option<Item>>,
    pub extension: Option<Vec<Entry>>,
}

/// The mathematical content of a `Record`. An absent extension bucket and
/// an empty one have the same content.
pub struct RecordView {
    pub slots: Seq<Option<Tree>>,
    pub extension: Seq<(Tree, Tree)>,
}

/// The contents of a sequence of optional values, place by place.
pub open spec fn option_trees(slots: Seq<Option<Item>>) -> Seq<Option<Tree>> {
    Seq::new(
        slots.len(),
        |i: int|
            match slots[i] {
                Some(v) => Some(v@),
                None => None,
            },
    )
}

impl View for Record {
    type V = RecordView;

    open spec fn view(&self) -> RecordView {
        RecordView {
            slots: option_trees(self.slots@),
            extension: bucket_view(self.extension),
        }
    }
}

/// The content of an optional extension bucket: nothing where it is
/// absent.
pub open spec fn bucket_view(extension: Option<Vec<Entry>>) -> Seq<(Tree, Tree)> {
    match extension {
        Some(entries) => pairs(entries@),
        None => Seq::empty(),
    }
}

/// A schema reserves each of its keys once.
pub open spec fn distinct_keys(schema: Seq<Slot>) -> bool {
    forall|i: int, j: int|
        0 <= i < j < schema.len() ==> (#[trigger] schema[i]).key != (#[trigger] schema[j]).key
}

/// Whether `key` is one of the schema's reserved keys.
pub open spec fn reserved(schema: Seq<Slot>, key: Tree) -> bool {
    exists|i: int| 0 <= i < schema.len() && key == Tree::Integer((#[trigger] schema[i]).key)
}

/// The place of the slot that reserves `key`.
pub open spec fn slot_of(schema: Seq<Slot>, key: Tree) -> int {
    choose|i: int| 0 <= i < schema.len() && key == Tree::Integer((#[trigger] schema[i]).key)
}

/// The record before any entry was read: every slot vacant, no extension.
pub open spec fn vacant(schema: Seq<Slot>) -> RecordView {
    RecordView { slots: Seq::new(schema.len(), |i: int| None), extension: Seq::empty() }
}

/// Reading one more entry. An entry under a reserved key fills that key's
/// slot, unless the slot is filled already or the value has another shape
/// than the declared one; any other entry joins the extension bucket as it
/// is. A failure stays.
pub open spec fn absorb(
    schema: Seq<Slot>,
    state: Result<RecordView, CodecError>,
    entry: (Tree, Tree),
) -> Result<RecordView, CodecError> {
    match state {
        Err(e) => Err(e),
        Ok(rv) => if reserved(schema, entry.0) {
            let i = slot_of(schema, entry.0);
            if rv.slots[i] is Some {
                Err(CodecError::DuplicateKey(schema[i].key))
            } else if schema[i].shape matches Some(shape) && entry.1.shape() != shape {
                Err(
                    CodecError::TypeMismatch {
                        key: Some(schema[i].key),
                        expected: schema[i].shape->Some_0,
                    },
                )
            } else {
                Ok(RecordView { slots: rv.slots.update(i, Some(entry.1)), extension: rv.extension })
            }
        } else {
            Ok(RecordView { slots: rv.slots, extension: rv.extension.push(entry) })
        },
    }
}

/// Reading the entries of a map from first to last.
pub open spec fn absorb_all(schema: Seq<Slot>, entries: Seq<(Tree, Tree)>) -> Result<
    RecordView,
    CodecError,
>
    decreases entries.len(),
{
    if entries.len() == 0 {
        Ok(vacant(schema))
    } else {
        absorb(schema, absorb_all(schema, entries.drop_last()), entries.last())
    }
}

/// Whether slot `i` is required and vacant.
pub open spec fn missing(schema: Seq<Slot>, slots: Seq<Option<Tree>>, i: int) -> bool {
    0 <= i < schema.len() && schema[i].required && slots[i] is None
}

/// Whether no required slot is vacant.
pub open spec fn complete(schema: Seq<Slot>, slots: Seq<Option<Tree>>) -> bool {
    forall|i: int| !#[trigger] missing(schema, slots, i)
}

/// The first required slot that is vacant, in the schema's order.
pub open spec fn first_missing(schema: Seq<Slot>, slots: Seq<Option<Tree>>) -> int {
    choose|i: int|
        missing(schema, slots, i) && forall|j: int|
            0 <= j < i ==> !#[trigger] missing(schema, slots, j)
}

/// What a map decodes to against a schema: the first failure among its
/// entries if there is one; else the first required slot left vacant; else
/// the record.
pub open spec fn decoded(schema: Seq<Slot>, entries: Seq<(Tree, Tree)>) -> Result<
    RecordView,
    CodecError,
> {
    match absorb_all(schema, entries) {
        Err(e) => Err(e),
        Ok(rv) => if complete(schema, rv.slots) {
            Ok(rv)
        } else {
            Err(CodecError::MissingField(schema[first_missing(schema, rv.slots)].key))
        },
    }
}

/// The entries of the first `n` slots that are filled, in the schema's
/// order, each under its reserved key.
pub open spec fn present(schema: Seq<Slot>, slots: Seq<Option<Tree>>, n: int) -> Seq<(Tree, Tree)>
    decreases n,
{
    if n <= 0 {
        Seq::empty()
    } else {
        let rest = present(schema, slots, n - 1);
        match slots[n - 1] {
            Some(t) => rest.push((Tree::Integer(schema[n - 1].key), t)),
            None => rest,
        }
    }
}

/// What a record encodes to: its filled slots in the schema's order, then
/// the extension entries in their own order.
pub open spec fn encoded(schema: Seq<Slot>, record: RecordView) -> Seq<(Tree, Tree)> {
    present(schema, record.slots, schema.len() as int) + record.extension
}

/// Whether a record is one that its schema allows: a place for every slot,
/// each filled slot of the declared shape, every required slot filled, and
/// no extension entry under a reserved key.
pub open spec fn fits(schema: Seq<Slot>, record: RecordView) -> bool {
    &&& record.slots.len() == schema.len()
    &&& forall|i: int|
        0 <= i < schema.len() ==> match #[trigger] record.slots[i] {
            Some(t) => schema[i].shape matches Some(shape) ==> t.shape() == shape,
            None => !schema[i].required,
        }
    &&& forall|j: int|
        0 <= j < record.extension.len() ==> !reserved(schema, (#[trigger] record.extension[j]).0)
}

/// Whether no entry of an extension bucket stands under a reserved key.
pub open spec fn unreserved(schema: Seq<Slot>, extension: Seq<(Tree, Tree)>) -> bool {
    forall|j: int| 0 <= j < extension.len() ==> !reserved(schema, (#[trigger] extension[j]).0)
}

/// The outcome of a decoding, with the record replaced by its content.
pub open spec fn outcome(r: Result<Record, CodecError>) -> Result<RecordView, CodecError> {
    match r {
        Ok(rec) => Ok(rec@),
        Err(e) => Err(e),
    }
}

/// The place of the slot that reserves `key`, if the schema reserves it.
pub fn find_slot(schema: &Vec<Slot>, key: &Item) -> (r: Option<usize>)
    requires
        distinct_keys(schema@),
    ensures
        r is Some <==> reserved(schema@, key@),
        r matches Some(i) ==> i < schema@.len() && i == slot_of(schema@, key@),
{
    match key {
        Item::Integer(k) => {
            let mut i: usize = 0;
            while i < schema.len()
                invariant
                    i <= schema@.len(),
                    key@ == Tree::Integer(*k),
                    distinct_keys(schema@),
                    forall|j: int| 0 <= j < i ==> (#[trigger] schema@[j]).key != *k,
                decreases schema@.len() - i,
            {
                if schema[i].key == *k {
                    proof {
                        assert(key@ == Tree::Integer(schema@[i as int].key));
                        let j = slot_of(schema@, key@);
                        assert(schema@[j].key == schema@[i as int].key);
                        assert(j == i) by {
                            if j < i {
                                assert(schema@[j].key != schema@[i as int].key);
                            } else if i < j {
                                assert(schema@[i as int].key != schema@[j].key);
                            }
                        }
                    }
                    return Some(i);
                }
                i += 1;
            }
            None
        },
        _ => None,
    }
}

/// A failure among the first entries is the failure of the whole map.
pub proof fn lemma_failure_stays(schema: Seq<Slot>, entries: Seq<(Tree, Tree)>, k: int)
    requires
        0 <= k <= entries.len(),
        absorb_all(schema, entries.take(k)) is Err,
    ensures
        absorb_all(schema, entries) == absorb_all(schema, entries.take(k)),
    decreases entries.len() - k,
{
    if k == entries.len() {
        assert(entries.take(k) =~= entries);
    } else {
        assert(entries.take(k + 1).drop_last() =~= entries.take(k));
        lemma_failure_stays(schema, entries, k + 1);
    }
}

/// Decodes the entries of a map against a schema.
pub fn decode_record(schema: &Vec<Slot>, entries: Vec<Entry>) -> (r: Result<Record, CodecError>)
    requires
        distinct_keys(schema@),
    ensures
        outcome(r) == decoded(schema@, pairs(entries@)),
        r matches Ok(rec) ==> rec.slots@.len() == schema@.len() && (rec.extension matches Some(
            bucket,
        ) ==> bucket@.len() > 0),
{
    let n = schema.len();
    let mut slots: Vec<Option<Item>> = Vec::new();
    let mut i: usize = 0;
    while i < n
        invariant
            i <= n,
            slots@.len() == i,
            forall|j: int| 0 <= j < i ==> slots@[j] is None,
        decreases n - i,
    {
        slots.push(None);
        i += 1;
    }
    let mut bucket: Vec<Entry> = Vec::new();
    let ghost all = entries@;
    let ghost whole = pairs(entries@);
    proof {
        assert(option_trees(slots@) =~= vacant(schema@).slots);
        assert(pairs(bucket@) =~= vacant(schema@).extension);
        assert(whole.take(0) =~= Seq::<(Tree, Tree)>::empty());
    }
    for e in it: entries
        invariant
            it.seq() == all,
            whole == pairs(all),
            n == schema@.len(),
            slots@.len() == n,
            distinct_keys(schema@),
            absorb_all(schema@, whole.take(it.index() as int)) == Ok::<RecordView, CodecError>(
                RecordView { slots: option_trees(slots@), extension: pairs(bucket@) },
            ),
    {
        let ghost k = it.index() as int;
        let ghost before = RecordView { slots: option_trees(slots@), extension: pairs(bucket@) };
        proof {
            assert(whole.take(k + 1).drop_last() =~= whole.take(k));
            assert(whole.take(k + 1).last() == e@);
        }
        match find_slot(schema, &e.key) {
            Some(at) => {
                if slots[at].is_some() {
                    proof {
                        lemma_failure_stays(schema@, whole, k + 1);
                    }
                    return Err(CodecError::DuplicateKey(schema[at].key));
                }
                match schema[at].shape {
                    Some(shape) => {
                        if e.value.shape() != shape {
                            proof {
                                lemma_failure_stays(schema@, whole, k + 1);
                            }
                            return Err(
                                CodecError::TypeMismatch {
                                    key: Some(schema[at].key),
                                    expected: shape,
                                },
                            );
                        }
                    },
                    None => {},
                }
                slots[at] = Some(e.value);
                proof {
                    assert(option_trees(slots@) =~= before.slots.update(at as int, Some(e.value@)));
                }
            },
            None => {
                proof {
                    lemma_pairs_push(bucket@, e);
                }
                bucket.push(e);
            },
        }
    }
    proof {
        assert(whole.take(all.len() as int) =~= whole);
        assert(absorb_all(schema@, whole) == Ok::<RecordView, CodecError>(
            RecordView { slots: option_trees(slots@), extension: pairs(bucket@) },
        ));
    }
    let mut at: usize = 0;
    while at < n
        invariant
            at <= n,
            n == schema@.len(),
            slots@.len() == n,
            whole == pairs(entries@),
            absorb_all(schema@, whole) == Ok::<RecordView, CodecError>(
                RecordView { slots: option_trees(slots@), extension: pairs(bucket@) },
            ),
            forall|j: int| 0 <= j < at ==> !#[trigger] missing(schema@, option_trees(slots@), j),
        decreases n - at,
    {
        if schema[at].required && slots[at].is_none() {
            proof {
                let sv = option_trees(slots@);
                assert(missing(schema@, sv, at as int));
                let f = first_missing(schema@, sv);
                assert(f == at);
            }
            return Err(CodecError::MissingField(schema[at].key));
        }
        at += 1;
    }
    proof {
        assert(complete(schema@, option_trees(slots@)));
        assert(bucket@.len() == 0 ==> pairs(bucket@) =~= Seq::<(Tree, Tree)>::empty());
    }
    let extension = if bucket.len() == 0 {
        None
    } else {
        Some(bucket)
    };
    Ok(Record { slots, extension })
}

/// Encodes a record as the entries of a map.
pub fn encode_record(schema: &Vec<Slot>, record: Record) -> (r: Vec<Entry>)
    requires
        record.slots@.len() == schema@.len(),
    ensures
        pairs(r@) == encoded(schema@, record@),
{
    let ghost content = record@;
    let Record { slots, extension } = record;
    let ghost places = slots@;
    let n = schema.len();
    let mut out: Vec<Entry> = Vec::new();
    let mut i: usize = 0;
    proof {
        assert(pairs(out@) =~= present(schema@, content.slots, 0));
    }
    for slot in it: slots
        invariant
            it.seq() == places,
            content.slots == option_trees(places),
            places.len() == schema@.len(),
            n == schema@.len(),
            i == it.index(),
            pairs(out@) == present(schema@, content.slots, i as int),
    {
        match slot {
            Some(value) => {
                let entry = Entry { key: Item::Integer(schema[i].key), value };
                proof {
                    lemma_pairs_push(out@, entry);
                }
                out.push(entry);
            },
            None => {},
        }
        assert(i < n);
        i += 1;
    }
    match extension {
        Some(bucket) => {
            let ghost extra = bucket@;
            let ghost head = pairs(out@);
            proof {
                assert(pairs(extra.take(0)) =~= Seq::<(Tree, Tree)>::empty());
                assert(head + pairs(extra.take(0)) =~= head);
            }
            for e in it: bucket
                invariant
                    it.seq() == extra,
                    pairs(out@) == head + pairs(extra.take(it.index() as int)),
            {
                proof {
                    lemma_pairs_push(out@, e);
                    assert(extra.take(it.index() + 1) =~= extra.take(it.index() as int).push(e));
                    lemma_pairs_push(extra.take(it.index() as int), e);
                    assert((head + pairs(extra.take(it.index() as int))).push(e@) =~= head + pairs(
                        extra.take(it.index() as int),
                    ).push(e@));
                }
                out.push(e);
            }
            proof {
                assert(extra.take(extra.len() as int) =~= extra);
            }
        },
        None => {
            proof {
                assert(pairs(out@) + Seq::<(Tree, Tree)>::empty() =~= pairs(out@));
            }
        },
    }
    out
}

} // verus!
