use vstd::prelude::*;
use crate::error::Error;
use crate::keygen::{Key, KeyView, KEY_TYPE_OBLIVIOUS};
use crate::oblivious::{oblivious_content, oblivious_content_of};
use crate::store::{active_count, active_key, RecordView};

verus! {

/// What the two storage reads for one requested id returned.
#[derive(Clone, Debug)]
pub enum Lookup {
    /// A read failed.
    Failed,
    /// `count` enabled rows of the id exist under the master, and `record`
    /// is the one for the requesting consumer, if any.
    Found { count: i64, record: Option<Key> },
}

/// A lookup as plain values.
pub enum LookupView {
    Failed,
    Found { count: int, record: Option<KeyView> },
}

impl View for Lookup {
    type V = LookupView;

    open spec fn view(&self) -> LookupView {
        match self {
            Lookup::Failed => LookupView::Failed,
            Lookup::Found { count, record } => LookupView::Found {
                count: *count as int,
                record: match record {
                    Some(k) => Some(k@),
                    None => None,
                },
            },
        }
    }
}

/// The lookups of a sequence as plain values.
pub open spec fn lookups_view(ls: Seq<Lookup>) -> Seq<LookupView> {
    ls.map_values(|l: Lookup| l@)
}

/// The keys of a sequence as plain values.
pub open spec fn keys_view(ks: Seq<Key>) -> Seq<KeyView> {
    ks.map_values(|k: Key| k@)
}

/// What the reads for `id` give on a table with rows `t`.
pub open spec fn lookup_of(t: Seq<RecordView>, id: u128, master: Seq<char>, consumer: Seq<char>) -> LookupView {
    LookupView::Found {
        count: active_count(t, id, master) as int,
        record: active_key(t, id, master, consumer),
    }
}

/// The answer to `consumer`'s request under `master` for key `id`, given
/// the reads: a standard key as stored, an oblivious key with its content
/// transformed for this request, `Unauthorized` where the key exists under
/// the master for other consumers only, and `NotFound` where it does not
/// exist under the master.
pub open spec fn retrieval(id: u128, master: Seq<char>, consumer: Seq<char>, l: LookupView) -> Result<
    KeyView,
    Error,
> {
    match l {
        LookupView::Failed => Err(Error::InternalError),
        LookupView::Found { count, record } => match record {
            Some(k) => if k.key_type == KEY_TYPE_OBLIVIOUS {
                match oblivious_content_of(k.content, master, consumer, id) {
                    Some(c) => Ok(KeyView { content: c, ..k }),
                    None => Err(Error::InternalError),
                }
            } else {
                Ok(k)
            },
            None => if count > 0 {
                Err(Error::Unauthorized)
            } else {
                Err(Error::NotFound)
            },
        },
    }
}

/// The answer to a request for the first `n` ids: all their keys, in order,
/// or the error of the first id that fails.
pub open spec fn retrieval_prefix(
    ids: Seq<u128>,
    master: Seq<char>,
    consumer: Seq<char>,
    ls: Seq<LookupView>,
    n: nat,
) -> Result<Seq<KeyView>, Error>
    decreases n,
{
    if n == 0 {
        Ok(Seq::empty())
    } else {
        match retrieval_prefix(ids, master, consumer, ls, (n - 1) as nat) {
            Err(e) => Err(e),
            Ok(vs) => match retrieval(ids[n - 1], master, consumer, ls[n - 1]) {
                Ok(v) => Ok(vs.push(v)),
                Err(e) => Err(e),
            },
        }
    }
}

/// The answer to a request for all of `ids`.
pub open spec fn retrieval_all(
    ids: Seq<u128>,
    master: Seq<char>,
    consumer: Seq<char>,
    ls: Seq<LookupView>,
) -> Result<Seq<KeyView>, Error> {
    retrieval_prefix(ids, master, consumer, ls, ids.len())
}

fn copy_key(k: &Key) -> (r: Key)
    ensures
        r@ == k@,
{
    Key { id: k.id, content: k.content.clone(), key_type: k.key_type, size: k.size }
}

/// Decides the answer for one requested id from the storage reads for it.
pub fn retrieve_key(id: u128, master_id: &str, consumer_id: &str, lookup: &Lookup) -> (r: Result<
    Key,
    Error,
>)
    ensures
        match r {
            Ok(k) => retrieval(id, master_id@, consumer_id@, lookup@) == Ok::<KeyView, Error>(k@),
            Err(e) => retrieval(id, master_id@, consumer_id@, lookup@) == Err::<KeyView, Error>(e),
        },
{
    match lookup {
        Lookup::Failed => Err(Error::InternalError),
        Lookup::Found { count, record } => match record {
            Some(k) => {
                if k.key_type == KEY_TYPE_OBLIVIOUS {
                    let content = oblivious_content(k.content.as_str(), master_id, consumer_id, id)?;
                    Ok(Key { id: k.id, content, key_type: k.key_type, size: k.size })
                } else {
                    Ok(copy_key(k))
                }
            },
            None => if *count > 0 {
                Err(Error::Unauthorized)
            } else {
                Err(Error::NotFound)
            },
        },
    }
}

pub(crate) proof fn lemma_error_persists(
    ids: Seq<u128>,
    master: Seq<char>,
    consumer: Seq<char>,
    ls: Seq<LookupView>,
    k: nat,
    n: nat,
    e: Error,
)
    requires
        k <= n,
        retrieval_prefix(ids, master, consumer, ls, k) == Err::<Seq<KeyView>, Error>(e),
    ensures
        retrieval_prefix(ids, master, consumer, ls, n) == Err::<Seq<KeyView>, Error>(e),
    decreases n,
{
    if k < n {
        lemma_error_persists(ids, master, consumer, ls, k, (n - 1) as nat, e);
    }
}

/// Answers a request for `key_ids`, in order, from the storage reads for
/// each (`lookups[i]` for `key_ids[i]`): every key, or the error of the
/// first id that fails and no keys at all.
pub fn get_multiple_keys(
    key_ids: &[u128],
    master_id: &str,
    consumer_id: &str,
    lookups: &[Lookup],
) -> (r: Result<Vec<Key>, Error>)
    requires
        lookups@.len() == key_ids@.len(),
    ensures
        match r {
            Ok(ks) => retrieval_all(key_ids@, master_id@, consumer_id@, lookups_view(lookups@))
                == Ok::<Seq<KeyView>, Error>(keys_view(ks@)),
            Err(e) => retrieval_all(key_ids@, master_id@, consumer_id@, lookups_view(lookups@))
                == Err::<Seq<KeyView>, Error>(e),
        },
{
    let ghost ls = lookups_view(lookups@);
    let mut result: Vec<Key> = Vec::new();
    let mut i: usize = 0;
    assert(keys_view(result@) =~= Seq::<KeyView>::empty());
    while i < key_ids.len()
        invariant
            lookups@.len() == key_ids@.len(),
            ls == lookups_view(lookups@),
            i <= key_ids@.len(),
            retrieval_prefix(key_ids@, master_id@, consumer_id@, ls, i as nat) == Ok::<
                Seq<KeyView>,
                Error,
            >(keys_view(result@)),
        decreases key_ids@.len() - i,
    {
        let r = retrieve_key(key_ids[i], master_id, consumer_id, &lookups[i]);
        assert(ls[i as int] == lookups@[i as int]@);
        match r {
            Ok(k) => {
                assert(keys_view(result@).push(k@) =~= keys_view(result@.push(k)));
                result.push(k);
            },
            Err(e) => {
                proof {
                    lemma_error_persists(
                        key_ids@,
                        master_id@,
                        consumer_id@,
                        ls,
                        (i + 1) as nat,
                        key_ids@.len(),
                        e,
                    );
                }
                return Err(e);
            },
        }
        i = i + 1;
    }
    Ok(result)
}

} // verus!
