//! What holds of keys that are saved and then requested: the laws that
//! relate the rows written by `save_keys` to the answers of `get_multiple_keys`
//! when the storage reads are taken from those rows.
use vstd::prelude::*;
use vstd::arithmetic::div_mod::{
    lemma_div_pos_is_pos, lemma_fundamental_div_mod, lemma_fundamental_div_mod_converse,
    lemma_mod_pos_bound,
};
use crate::error::Error;
use crate::keygen::{Key, KeyView, KEY_TYPE_OBLIVIOUS};
use crate::oblivious::oblivious_content_of;
use crate::retrieve::{
    lemma_error_persists, lookup_of, retrieval, retrieval_all, retrieval_prefix, LookupView,
};
use crate::store::{
    active_count, active_key, for_consumer, key_of, row_of, saved_rows, under_master, RecordView,
};

verus! {

/// No two of the keys share an id.
pub open spec fn distinct_ids(keys: Seq<Key>) -> bool {
    forall|a: int, b: int|
        0 <= a < keys.len() && 0 <= b < keys.len() && a != b ==> #[trigger] keys[a].id
            != #[trigger] keys[b].id
}

proof fn lemma_key_found(
    t: Seq<RecordView>,
    id: u128,
    master: Seq<char>,
    consumer: Seq<char>,
    v: KeyView,
    w: int,
)
    requires
        0 <= w < t.len(),
        for_consumer(t[w], id, master, consumer),
        forall|k: int|
            0 <= k < t.len() && #[trigger] for_consumer(t[k], id, master, consumer) ==> key_of(t[k])
                == v,
    ensures
        active_key(t, id, master, consumer) == Some(v),
    decreases t.len(),
{
    if !for_consumer(t[0], id, master, consumer) {
        let r = t.subrange(1, t.len() as int);
        assert forall|k: int|
            0 <= k < r.len() && #[trigger] for_consumer(r[k], id, master, consumer) implies key_of(
                r[k],
            ) == v by {
            assert(r[k] == t[k + 1]);
        }
        assert(r[w - 1] == t[w]);
        lemma_key_found(r, id, master, consumer, v, w - 1);
    }
}

proof fn lemma_key_absent(t: Seq<RecordView>, id: u128, master: Seq<char>, consumer: Seq<char>)
    requires
        forall|k: int| 0 <= k < t.len() ==> !#[trigger] for_consumer(t[k], id, master, consumer),
    ensures
        active_key(t, id, master, consumer) is None,
    decreases t.len(),
{
    if t.len() > 0 {
        let r = t.subrange(1, t.len() as int);
        assert forall|k: int| 0 <= k < r.len() implies !#[trigger] for_consumer(
            r[k],
            id,
            master,
            consumer,
        ) by {
            assert(r[k] == t[k + 1]);
        }
        assert(!for_consumer(t[0], id, master, consumer));
        lemma_key_absent(r, id, master, consumer);
    }
}

proof fn lemma_count_positive(t: Seq<RecordView>, id: u128, master: Seq<char>, w: int)
    requires
        0 <= w < t.len(),
        under_master(t[w], id, master),
    ensures
        active_count(t, id, master) > 0,
    decreases t.len(),
{
    if w > 0 {
        let r = t.subrange(1, t.len() as int);
        assert(r[w - 1] == t[w]);
        lemma_count_positive(r, id, master, w - 1);
    }
}

proof fn lemma_count_zero(t: Seq<RecordView>, id: u128, master: Seq<char>)
    requires
        forall|k: int| 0 <= k < t.len() ==> !#[trigger] under_master(t[k], id, master),
    ensures
        active_count(t, id, master) == 0,
    decreases t.len(),
{
    if t.len() > 0 {
        let r = t.subrange(1, t.len() as int);
        assert forall|k: int| 0 <= k < r.len() implies !#[trigger] under_master(r[k], id, master) by {
            assert(r[k] == t[k + 1]);
        }
        assert(!under_master(t[0], id, master));
        lemma_count_zero(r, id, master);
    }
}

/// Row `p` of the saved rows belongs to key `p / m` and consumer `p % m`.
proof fn lemma_saved_index(keys: Seq<Key>, master: Seq<char>, consumers: Seq<String>, p: int)
    requires
        0 <= p < keys.len() * consumers.len(),
    ensures
        consumers.len() > 0,
        0 <= p / (consumers.len() as int) < keys.len(),
        0 <= p % (consumers.len() as int) < consumers.len(),
        saved_rows(keys, master, consumers)[p] == row_of(
            keys[p / (consumers.len() as int)]@,
            master,
            consumers[p % (consumers.len() as int)]@,
        ),
{
    let n = keys.len() as int;
    let m = consumers.len() as int;
    assert(m > 0) by (nonlinear_arith)
        requires
            0 <= p < n * m,
            n >= 0,
            m >= 0,
    ;
    lemma_fundamental_div_mod(p, m);
    lemma_mod_pos_bound(p, m);
    lemma_div_pos_is_pos(p, m);
    let q = p / m;
    let r = p % m;
    assert(q < n) by (nonlinear_arith)
        requires
            p == m * q + r,
            0 <= r,
            p < n * m,
            m > 0,
    ;
}

/// Row `i * m + j` of the saved rows saves key `i` for consumer `j`.
proof fn lemma_saved_pair(
    keys: Seq<Key>,
    master: Seq<char>,
    consumers: Seq<String>,
    i: int,
    j: int,
)
    requires
        0 <= i < keys.len(),
        0 <= j < consumers.len(),
    ensures
        0 <= i * consumers.len() + j < keys.len() * consumers.len(),
        saved_rows(keys, master, consumers)[i * consumers.len() + j] == row_of(
            keys[i]@,
            master,
            consumers[j]@,
        ),
{
    let n = keys.len() as int;
    let m = consumers.len() as int;
    assert(0 <= i * m + j < n * m) by (nonlinear_arith)
        requires
            0 <= i < n,
            0 <= j < m,
    ;
    lemma_fundamental_div_mod_converse(i * m + j, m, i, j);
}

/// Saving keys with distinct ids for a list of consumers makes every pair
/// of a key and a consumer retrievable: the reads for key `i` by consumer
/// `j` find that key, and find the key under the master.
pub proof fn lemma_saved_pairs_retrievable(
    keys: Seq<Key>,
    master: Seq<char>,
    consumers: Seq<String>,
    i: int,
    j: int,
)
    requires
        distinct_ids(keys),
        0 <= i < keys.len(),
        0 <= j < consumers.len(),
    ensures
        active_key(saved_rows(keys, master, consumers), keys[i].id, master, consumers[j]@) == Some(
            keys[i]@,
        ),
        active_count(saved_rows(keys, master, consumers), keys[i].id, master) > 0,
{
    let t = saved_rows(keys, master, consumers);
    let m = consumers.len() as int;
    let id = keys[i].id;
    lemma_saved_pair(keys, master, consumers, i, j);
    assert forall|k: int|
        0 <= k < t.len() && #[trigger] for_consumer(t[k], id, master, consumers[j]@) implies key_of(
            t[k],
        ) == keys[i]@ by {
        lemma_saved_index(keys, master, consumers, k);
        assert(keys[k / m].id == id);
    }
    lemma_key_found(t, id, master, consumers[j]@, keys[i]@, i * m + j);
    lemma_count_positive(t, id, master, i * m + j);
}

/// A request for a single id is answered as that id's retrieval.
proof fn lemma_single_request(id: u128, master: Seq<char>, consumer: Seq<char>, l: LookupView)
    ensures
        retrieval_all(seq![id], master, consumer, seq![l]) == match retrieval(
            id,
            master,
            consumer,
            l,
        ) {
            Ok(v) => Ok(seq![v]),
            Err(e) => Err::<Seq<KeyView>, Error>(e),
        },
{
    assert(retrieval_prefix(seq![id], master, consumer, seq![l], 0) == Ok::<Seq<KeyView>, Error>(
        Seq::empty(),
    ));
    match retrieval(id, master, consumer, l) {
        Ok(v) => assert(Seq::<KeyView>::empty().push(v) =~= seq![v]),
        Err(_) => {},
    }
}

/// A standard key saved for a consumer comes back to that consumer exactly
/// as it was saved.
pub proof fn lemma_standard_round_trip(
    keys: Seq<Key>,
    master: Seq<char>,
    consumers: Seq<String>,
    i: int,
    j: int,
)
    requires
        distinct_ids(keys),
        0 <= i < keys.len(),
        0 <= j < consumers.len(),
        keys[i].key_type != KEY_TYPE_OBLIVIOUS,
    ensures
        retrieval_all(
            seq![keys[i].id],
            master,
            consumers[j]@,
            seq![lookup_of(saved_rows(keys, master, consumers), keys[i].id, master, consumers[j]@)],
        ) == Ok::<Seq<KeyView>, Error>(seq![keys[i]@]),
{
    lemma_saved_pairs_retrievable(keys, master, consumers, i, j);
    lemma_single_request(
        keys[i].id,
        master,
        consumers[j]@,
        lookup_of(saved_rows(keys, master, consumers), keys[i].id, master, consumers[j]@),
    );
}

/// An oblivious key saved for a consumer comes back to that consumer with
/// the content that the oblivious transform gives for the stored content,
/// the master, the consumer and the id: the same value on every request.
pub proof fn lemma_oblivious_release(
    keys: Seq<Key>,
    master: Seq<char>,
    consumers: Seq<String>,
    i: int,
    j: int,
)
    requires
        distinct_ids(keys),
        0 <= i < keys.len(),
        0 <= j < consumers.len(),
        keys[i].key_type == KEY_TYPE_OBLIVIOUS,
    ensures
        retrieval_all(
            seq![keys[i].id],
            master,
            consumers[j]@,
            seq![lookup_of(saved_rows(keys, master, consumers), keys[i].id, master, consumers[j]@)],
        ) == match oblivious_content_of(keys[i].content@, master, consumers[j]@, keys[i].id) {
            Some(c) => Ok(seq![KeyView { content: c, ..keys[i]@ }]),
            None => Err::<Seq<KeyView>, Error>(Error::InternalError),
        },
{
    lemma_saved_pairs_retrievable(keys, master, consumers, i, j);
    lemma_single_request(
        keys[i].id,
        master,
        consumers[j]@,
        lookup_of(saved_rows(keys, master, consumers), keys[i].id, master, consumers[j]@),
    );
}

/// A consumer that a key was not saved for is refused it as unauthorised,
/// when the key was saved for some consumer under the same master.
pub proof fn lemma_other_consumer_unauthorized(
    keys: Seq<Key>,
    master: Seq<char>,
    consumers: Seq<String>,
    i: int,
    consumer: Seq<char>,
)
    requires
        distinct_ids(keys),
        0 <= i < keys.len(),
        consumers.len() > 0,
        forall|j: int| 0 <= j < consumers.len() ==> #[trigger] consumers[j]@ != consumer,
    ensures
        retrieval_all(
            seq![keys[i].id],
            master,
            consumer,
            seq![lookup_of(saved_rows(keys, master, consumers), keys[i].id, master, consumer)],
        ) == Err::<Seq<KeyView>, Error>(Error::Unauthorized),
{
    let t = saved_rows(keys, master, consumers);
    let m = consumers.len() as int;
    lemma_saved_pairs_retrievable(keys, master, consumers, i, 0);
    assert forall|k: int| 0 <= k < t.len() implies !#[trigger] for_consumer(
        t[k],
        keys[i].id,
        master,
        consumer,
    ) by {
        lemma_saved_index(keys, master, consumers, k);
    }
    lemma_key_absent(t, keys[i].id, master, consumer);
    lemma_single_request(keys[i].id, master, consumer, lookup_of(t, keys[i].id, master, consumer));
}

/// A request under another master than the one the keys were saved under
/// finds no key at all.
pub proof fn lemma_other_master_not_found(
    keys: Seq<Key>,
    master: Seq<char>,
    consumers: Seq<String>,
    id: u128,
    other_master: Seq<char>,
    consumer: Seq<char>,
)
    requires
        other_master != master,
    ensures
        retrieval_all(
            seq![id],
            other_master,
            consumer,
            seq![lookup_of(saved_rows(keys, master, consumers), id, other_master, consumer)],
        ) == Err::<Seq<KeyView>, Error>(Error::NotFound),
{
    let t = saved_rows(keys, master, consumers);
    assert forall|k: int| 0 <= k < t.len() implies !#[trigger] under_master(t[k], id, other_master) by {
        lemma_saved_index(keys, master, consumers, k);
    }
    assert forall|k: int| 0 <= k < t.len() implies !#[trigger] for_consumer(
        t[k],
        id,
        other_master,
        consumer,
    ) by {
        assert(!under_master(t[k], id, other_master));
    }
    lemma_count_zero(t, id, other_master);
    lemma_key_absent(t, id, other_master, consumer);
    lemma_single_request(id, other_master, consumer, lookup_of(t, id, other_master, consumer));
}

/// A request fails as a whole, with no keys, as soon as any of its ids fails.
pub proof fn lemma_any_failure_fails_request(
    ids: Seq<u128>,
    master: Seq<char>,
    consumer: Seq<char>,
    ls: Seq<LookupView>,
    k: int,
)
    requires
        ls.len() == ids.len(),
        0 <= k < ids.len(),
        retrieval(ids[k], master, consumer, ls[k]) is Err,
    ensures
        retrieval_all(ids, master, consumer, ls) is Err,
{
    match retrieval_prefix(ids, master, consumer, ls, k as nat) {
        Err(e) => lemma_error_persists(ids, master, consumer, ls, k as nat, ids.len(), e),
        Ok(_) => {
            let e = retrieval(ids[k], master, consumer, ls[k])->Err_0;
            lemma_error_persists(ids, master, consumer, ls, (k + 1) as nat, ids.len(), e);
        },
    }
}

} // verus!
