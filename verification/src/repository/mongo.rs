//! The document-store side of the service: the stored record shape, the
//! records a (re)initialization writes, and the collection's contents after
//! the documented operations: initialization deletes every record and then
//! inserts `count` fresh ones keyed by `_id`; lookup is an exact match on
//! that key, with absence as an ordinary outcome.

use vstd::prelude::*;
use crate::text::{dec_str, foo_description, lemma_dec_str_injective, make_description,
    usize_to_string};

verus! {

/// A record as the document store holds it: the identity field is the
/// document's primary key.
#[derive(Debug)]
pub struct FooEntity {
    pub _id: String,
    pub description: String,
}

/// The records written by an initialization with the given count: ids
/// `"0"` to `"count-1"`, each with its generated description.
pub fn init_documents(count: usize) -> (docs: Vec<FooEntity>)
    ensures
        docs@.len() == count,
        forall|i: int|
            0 <= i < count ==> (#[trigger] docs@[i])._id@ == dec_str(i as nat)
                && docs@[i].description@ == foo_description(i as nat),
{
    let mut docs: Vec<FooEntity> = Vec::new();
    let mut i: usize = 0;
    while i < count
        invariant
            i <= count,
            docs@.len() == i as int,
            forall|j: int|
                0 <= j < i as int ==> (#[trigger] docs@[j])._id@ == dec_str(j as nat)
                    && docs@[j].description@ == foo_description(j as nat),
        decreases count - i,
    {
        docs.push(FooEntity { _id: usize_to_string(i), description: make_description(i) });
        i = i + 1;
    }
    docs
}

/// The ids an initialization with the given count writes.
pub open spec fn generated_ids(count: nat) -> Set<Seq<char>> {
    Set::new(|k: Seq<char>| exists|i: nat| i < count && k == dec_str(i))
}

/// The collection's contents (id to description) after an initialization
/// with the given count, from any prior contents: every prior record is
/// deleted, then the generated records are inserted.
pub open spec fn store_after_init(prior: Map<Seq<char>, Seq<char>>, count: nat) -> Map<
    Seq<char>,
    Seq<char>,
> {
    Map::new(
        |k: Seq<char>| exists|i: nat| i < count && k == dec_str(i),
        |k: Seq<char>| foo_description(choose|i: nat| i < count && k == dec_str(i)),
    )
}

/// An exact-match lookup on the identity key: the stored description, or
/// absence when no record carries the id.
pub open spec fn store_find(store: Map<Seq<char>, Seq<char>>, id: Seq<char>) -> Option<Seq<char>> {
    if store.dom().contains(id) {
        Some(store[id])
    } else {
        None
    }
}

/// After an initialization with `count` records, looking an id up finds
/// the generated record for every number below `count`, and nothing for
/// any number from `count` on, whatever the collection held before.
pub proof fn lemma_find_after_init(prior: Map<Seq<char>, Seq<char>>, count: nat, i: nat)
    ensures
        i < count ==> store_find(store_after_init(prior, count), dec_str(i)) == Some(
            foo_description(i),
        ),
        i >= count ==> store_find(store_after_init(prior, count), dec_str(i)) is None,
{
    let store = store_after_init(prior, count);
    if i < count {
        assert(store.dom().contains(dec_str(i)));
        let j = choose|j: nat| j < count && dec_str(i) == dec_str(j);
        lemma_dec_str_injective(i, j);
    } else {
        if store.dom().contains(dec_str(i)) {
            let j = choose|j: nat| j < count && dec_str(i) == dec_str(j);
            lemma_dec_str_injective(i, j);
        }
    }
}

/// The generated ids are exactly `count` distinct keys.
pub proof fn lemma_generated_ids_count(count: nat)
    ensures
        generated_ids(count).finite(),
        generated_ids(count).len() == count,
    decreases count,
{
    if count == 0 {
        assert(generated_ids(0) =~= Set::empty());
    } else {
        let prev = (count - 1) as nat;
        lemma_generated_ids_count(prev);
        if generated_ids(prev).contains(dec_str(prev)) {
            let j = choose|j: nat| j < prev && dec_str(prev) == dec_str(j);
            lemma_dec_str_injective(prev, j);
        }
        assert(generated_ids(count) =~= generated_ids(prev).insert(dec_str(prev)));
    }
}

/// Initialization is delete-then-insert, so its outcome does not depend on
/// what the collection held: two runs with the same count, from any two
/// prior states, leave the same contents — in particular, running it twice
/// in succession leaves exactly `count` records, addressable precisely by
/// the ids `"0"` to `"count-1"`.
pub proof fn lemma_init_idempotent(
    prior1: Map<Seq<char>, Seq<char>>,
    prior2: Map<Seq<char>, Seq<char>>,
    count: nat,
)
    ensures
        store_after_init(prior1, count) == store_after_init(prior2, count),
        store_after_init(store_after_init(prior1, count), count) == store_after_init(
            prior1,
            count,
        ),
        store_after_init(prior1, count).dom() == generated_ids(count),
        store_after_init(prior1, count).dom().finite(),
        store_after_init(prior1, count).dom().len() == count,
{
    assert(store_after_init(prior1, count) =~= store_after_init(prior2, count));
    assert(store_after_init(store_after_init(prior1, count), count) =~= store_after_init(
        prior1,
        count,
    ));
    assert(store_after_init(prior1, count).dom() =~= generated_ids(count));
    lemma_generated_ids_count(count);
}

/// The contents of the collection as a map, when the given documents are
/// inserted in order into an emptied collection.
pub open spec fn documents_map(docs: Seq<FooEntity>) -> Map<Seq<char>, Seq<char>>
    decreases docs.len(),
{
    if docs.len() == 0 {
        Map::empty()
    } else {
        documents_map(docs.drop_last()).insert(docs.last()._id@, docs.last().description@)
    }
}

/// Inserting the generated documents into an emptied collection yields
/// exactly the modeled post-initialization contents.
pub proof fn lemma_init_documents_model(
    prior: Map<Seq<char>, Seq<char>>,
    docs: Seq<FooEntity>,
    count: nat,
)
    requires
        docs.len() == count,
        forall|i: int|
            0 <= i < count ==> (#[trigger] docs[i])._id@ == dec_str(i as nat)
                && docs[i].description@ == foo_description(i as nat),
    ensures
        documents_map(docs) == store_after_init(prior, count),
    decreases count,
{
    if count == 0 {
        assert(documents_map(docs) =~= store_after_init(prior, 0));
    } else {
        let prev = (count - 1) as nat;
        let sprev = store_after_init(prior, prev);
        let scount = store_after_init(prior, count);
        lemma_init_documents_model(prior, docs.drop_last(), prev);
        assert(docs.last() == docs[count - 1]);
        let ins = sprev.insert(dec_str(prev), foo_description(prev));
        assert(documents_map(docs) == ins);
        assert forall|k: Seq<char>| #[trigger] scount.dom().contains(k) implies ins.dom().contains(
            k,
        ) && ins[k] == scount[k] by {
            let j = choose|j: nat| j < count && k == dec_str(j);
            let j2 = choose|j2: nat| j2 < count && k == dec_str(j2);
            lemma_dec_str_injective(j, j2);
            if j == prev {
                assert(k == dec_str(prev));
            } else {
                assert(j < prev);
                assert(sprev.dom().contains(k));
                if k == dec_str(prev) {
                    lemma_dec_str_injective(j, prev);
                }
                let j3 = choose|j3: nat| j3 < prev && k == dec_str(j3);
                lemma_dec_str_injective(j2, j3);
            }
        }
        assert forall|k: Seq<char>| #[trigger] ins.dom().contains(k) implies scount.dom().contains(
            k,
        ) by {
            if k == dec_str(prev) {
                assert(prev < count && k == dec_str(prev));
            } else {
                assert(sprev.dom().contains(k));
                let j = choose|j: nat| j < prev && k == dec_str(j);
                assert(j < count && k == dec_str(j));
            }
        }
        assert(documents_map(docs) =~= scount);
    }
}

} // verus!
