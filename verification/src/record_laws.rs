use crate::error::CodecError;
use crate::record::{
    absorb_all, complete, decoded, distinct_keys, encoded, fits, missing, present, reserved,
    slot_of, RecordView, Slot,
};
use crate::value::Tree;
use vstd::prelude::*;

verus! {

/// The first `n` places of `slots`, with every later place vacant.
pub open spec fn filled_up_to(slots: Seq<Option<Tree>>, n: int) -> Seq<Option<Tree>> {
    Seq::new(
        slots.len(),
        |i: int|
            if i < n {
                slots[i]
            } else {
                None
            },
    )
}

/// In a schema of distinct keys, the slot that reserves the key of slot `i`
/// is slot `i`.
pub proof fn lemma_slot_of_own_key(schema: Seq<Slot>, i: int)
    requires
        distinct_keys(schema),
        0 <= i < schema.len(),
    ensures
        reserved(schema, Tree::Integer(schema[i].key)),
        slot_of(schema, Tree::Integer(schema[i].key)) == i,
{
    let key = Tree::Integer(schema[i].key);
    assert(key == Tree::Integer(schema[i].key));
    let j = slot_of(schema, key);
    assert(schema[j].key == schema[i].key);
    if j < i {
        assert(schema[j].key != schema[i].key);
    } else if i < j {
        assert(schema[i].key != schema[j].key);
    }
}

/// Reading back the entries of the first `n` slots fills exactly those
/// slots.
pub proof fn lemma_read_present(schema: Seq<Slot>, record: RecordView, n: int)
    requires
        distinct_keys(schema),
        fits(schema, record),
        0 <= n <= schema.len(),
    ensures
        absorb_all(schema, present(schema, record.slots, n)) == Ok::<RecordView, CodecError>(
            RecordView { slots: filled_up_to(record.slots, n), extension: Seq::empty() },
        ),
    decreases n,
{
    if n == 0 {
        assert(filled_up_to(record.slots, 0) =~= Seq::new(schema.len(), |i: int| None));
    } else {
        lemma_read_present(schema, record, n - 1);
        let rest = present(schema, record.slots, n - 1);
        match record.slots[n - 1] {
            Some(t) => {
                let entry = (Tree::Integer(schema[n - 1].key), t);
                assert(rest.push(entry).drop_last() =~= rest);
                lemma_slot_of_own_key(schema, n - 1);
                assert(filled_up_to(record.slots, n - 1).update(n - 1, Some(t)) =~= filled_up_to(
                    record.slots,
                    n,
                ));
            },
            None => {
                assert(filled_up_to(record.slots, n - 1) =~= filled_up_to(record.slots, n));
            },
        }
    }
}

/// Reading back the encoding, up to the first `m` extension entries.
pub proof fn lemma_read_extension(schema: Seq<Slot>, record: RecordView, m: int)
    requires
        distinct_keys(schema),
        fits(schema, record),
        0 <= m <= record.extension.len(),
    ensures
        absorb_all(
            schema,
            present(schema, record.slots, schema.len() as int) + record.extension.take(m),
        ) == Ok::<RecordView, CodecError>(
            RecordView { slots: record.slots, extension: record.extension.take(m) },
        ),
    decreases m,
{
    let head = present(schema, record.slots, schema.len() as int);
    if m == 0 {
        lemma_read_present(schema, record, schema.len() as int);
        assert(head + record.extension.take(0) =~= head);
        assert(filled_up_to(record.slots, schema.len() as int) =~= record.slots);
        assert(record.extension.take(0) =~= Seq::<(Tree, Tree)>::empty());
    } else {
        lemma_read_extension(schema, record, m - 1);
        let sofar = head + record.extension.take(m);
        assert(sofar.drop_last() =~= head + record.extension.take(m - 1));
        assert(sofar.last() == record.extension[m - 1]);
        assert(record.extension.take(m - 1).push(record.extension[m - 1])
            =~= record.extension.take(m));
    }
}

/// Round trip: a record that its schema allows decodes, from its own
/// encoding, to itself, extension entries included, each as it was and in
/// its place.
pub proof fn lemma_round_trip(schema: Seq<Slot>, record: RecordView)
    requires
        distinct_keys(schema),
        fits(schema, record),
    ensures
        decoded(schema, encoded(schema, record)) == Ok::<RecordView, CodecError>(record),
{
    lemma_read_extension(schema, record, record.extension.len() as int);
    assert(record.extension.take(record.extension.len() as int) =~= record.extension);
    assert forall|i: int| !#[trigger] missing(schema, record.slots, i) by {
        if 0 <= i < schema.len() {
            assert(record.slots[i] is None ==> !schema[i].required);
        }
    }
    assert(complete(schema, record.slots));
}

/// Extension entries pass through unchanged: whatever decodes leaves in the
/// bucket exactly the entries under unreserved keys, in their order, and
/// the encoding of the decoded record ends with exactly those entries.
pub proof fn lemma_extension_verbatim(schema: Seq<Slot>, entries: Seq<(Tree, Tree)>)
    requires
        decoded(schema, entries) is Ok,
    ensures
        decoded(schema, entries)->Ok_0.extension == entries.filter(
            |e: (Tree, Tree)| !reserved(schema, e.0),
        ),
        encoded(schema, decoded(schema, entries)->Ok_0) == present(
            schema,
            decoded(schema, entries)->Ok_0.slots,
            schema.len() as int,
        ) + entries.filter(|e: (Tree, Tree)| !reserved(schema, e.0)),
{
    lemma_bucket_is_filter(schema, entries);
}

/// The bucket after reading is the unreserved part of what was read.
pub proof fn lemma_bucket_is_filter(schema: Seq<Slot>, entries: Seq<(Tree, Tree)>)
    requires
        absorb_all(schema, entries) is Ok,
    ensures
        absorb_all(schema, entries)->Ok_0.extension == entries.filter(
            |e: (Tree, Tree)| !reserved(schema, e.0),
        ),
    decreases entries.len(),
{
    reveal(Seq::filter);
    let unreserved = |e: (Tree, Tree)| !reserved(schema, e.0);
    if entries.len() == 0 {
        assert(entries.filter(unreserved) =~= Seq::<(Tree, Tree)>::empty());
    } else {
        lemma_bucket_is_filter(schema, entries.drop_last());
    }
}

} // verus!
