use vstd::prelude::*;
use vstd::arithmetic::div_mod::lemma_fundamental_div_mod_converse;
use crate::error::Error;
use crate::keygen::{Key, KeyView};

verus! {

/// A row to insert: one key for one consumer. The table enables new rows by
/// default, so the row carries no `active` flag.
#[derive(Clone, Debug)]
pub struct NewKey {
    pub id: u128,
    pub key_type: i32,
    pub master_id: String,
    pub consumer_id: String,
    pub size: i32,
    pub content: String,
}

/// A stored row.
#[derive(Clone, Debug)]
pub struct KeyRecord {
    pub id: u128,
    pub key_type: i32,
    pub master_id: String,
    pub consumer_id: String,
    pub size: i32,
    pub content: String,
    pub active: bool,
}

/// A stored row as plain values.
pub struct RecordView {
    pub id: u128,
    pub key_type: i32,
    pub master_id: Seq<char>,
    pub consumer_id: Seq<char>,
    pub size: i32,
    pub content: Seq<char>,
    pub active: bool,
}

impl View for NewKey {
    type V = RecordView;

    /// The row as it stands once inserted: enabled.
    open spec fn view(&self) -> RecordView {
        RecordView {
            id: self.id,
            key_type: self.key_type,
            master_id: self.master_id@,
            consumer_id: self.consumer_id@,
            size: self.size,
            content: self.content@,
            active: true,
        }
    }
}

impl View for KeyRecord {
    type V = RecordView;

    open spec fn view(&self) -> RecordView {
        RecordView {
            id: self.id,
            key_type: self.key_type,
            master_id: self.master_id@,
            consumer_id: self.consumer_id@,
            size: self.size,
            content: self.content@,
            active: self.active,
        }
    }
}

impl KeyRecord {
    /// The stored form of a new row, with the given `active` flag.
    pub fn stored(row: NewKey, active: bool) -> (r: KeyRecord)
        ensures
            r@ == (RecordView { active, ..row@ }),
    {
        KeyRecord {
            id: row.id,
            key_type: row.key_type,
            master_id: row.master_id,
            consumer_id: row.consumer_id,
            size: row.size,
            content: row.content,
            active,
        }
    }
}

/// The rows of a table as plain values.
pub open spec fn table_of(rows: Seq<KeyRecord>) -> Seq<RecordView> {
    rows.map_values(|r: KeyRecord| r@)
}

/// The row that saves key `k` for `consumer` under `master`.
pub open spec fn row_of(k: KeyView, master: Seq<char>, consumer: Seq<char>) -> RecordView {
    RecordView {
        id: k.id,
        key_type: k.key_type,
        master_id: master,
        consumer_id: consumer,
        size: k.size,
        content: k.content,
        active: true,
    }
}

/// The rows that save `keys` for `consumers` under `master`: key by key,
/// and for each key one row per consumer, in order.
pub open spec fn saved_rows(keys: Seq<Key>, master: Seq<char>, consumers: Seq<String>) -> Seq<
    RecordView,
> {
    let m = consumers.len() as int;
    Seq::new(
        (keys.len() * consumers.len()) as nat,
        |p: int| row_of(keys[p / m]@, master, consumers[p % m]@),
    )
}

/// The projection of a row that retrieval hands out.
pub open spec fn key_of(r: RecordView) -> KeyView {
    KeyView { id: r.id, content: r.content, key_type: r.key_type, size: r.size }
}

/// An enabled row of key `id` under `master`.
pub open spec fn under_master(r: RecordView, id: u128, master: Seq<char>) -> bool {
    r.active && r.id == id && r.master_id == master
}

/// An enabled row of key `id` under `master` for `consumer`.
pub open spec fn for_consumer(r: RecordView, id: u128, master: Seq<char>, consumer: Seq<char>) -> bool {
    under_master(r, id, master) && r.consumer_id == consumer
}

/// Number of enabled rows of key `id` under `master`, whatever the consumer.
pub open spec fn active_count(t: Seq<RecordView>, id: u128, master: Seq<char>) -> nat
    decreases t.len(),
{
    if t.len() == 0 {
        0
    } else {
        (if under_master(t[0], id, master) {
            1nat
        } else {
            0nat
        }) + active_count(t.subrange(1, t.len() as int), id, master)
    }
}

/// The first enabled row of key `id` under `master` for `consumer`, projected.
pub open spec fn active_key(t: Seq<RecordView>, id: u128, master: Seq<char>, consumer: Seq<char>) -> Option<
    KeyView,
>
    decreases t.len(),
{
    if t.len() == 0 {
        None
    } else if for_consumer(t[0], id, master, consumer) {
        Some(key_of(t[0]))
    } else {
        active_key(t.subrange(1, t.len() as int), id, master, consumer)
    }
}

/// The batch of rows that saves `keys` for each of `consumer_ids` under
/// `master_id`: `keys.len() * consumer_ids.len()` rows, or an internal error
/// where that number does not fit the platform's size type.
pub fn save_keys(keys: &[Key], master_id: &str, consumer_ids: &[String]) -> (r: Result<
    Vec<NewKey>,
    Error,
>)
    ensures
        r is Err <==> keys@.len() * consumer_ids@.len() > usize::MAX,
        r is Err ==> r == Err::<Vec<NewKey>, Error>(Error::InternalError),
        r matches Ok(rows) ==> rows@.len() == keys@.len() * consumer_ids@.len() && forall|p: int|
            0 <= p < rows@.len() ==> #[trigger] rows@[p]@ == saved_rows(
                keys@,
                master_id@,
                consumer_ids@,
            )[p],
{
    let n = keys.len();
    let m = consumer_ids.len();
    if m != 0 && n > usize::MAX / m {
        assert(n * m > usize::MAX) by (nonlinear_arith)
            requires
                m != 0,
                n > usize::MAX / m,
        ;
        return Err(Error::InternalError);
    }
    assert(n * m <= usize::MAX) by (nonlinear_arith)
        requires
            m == 0 || n <= usize::MAX / m,
    ;
    let ghost want = saved_rows(keys@, master_id@, consumer_ids@);
    let mut rows: Vec<NewKey> = Vec::with_capacity(n * m);
    let mut i: usize = 0;
    while i < n
        invariant
            n == keys@.len(),
            m == consumer_ids@.len(),
            n * m <= usize::MAX,
            want == saved_rows(keys@, master_id@, consumer_ids@),
            i <= n,
            rows@.len() == i * m,
            forall|p: int| 0 <= p < rows@.len() ==> #[trigger] rows@[p]@ == want[p],
        decreases n - i,
    {
        let mut j: usize = 0;
        while j < m
            invariant
                n == keys@.len(),
                m == consumer_ids@.len(),
                n * m <= usize::MAX,
                want == saved_rows(keys@, master_id@, consumer_ids@),
                i < n,
                j <= m,
                rows@.len() == i * m + j,
                forall|p: int| 0 <= p < rows@.len() ==> #[trigger] rows@[p]@ == want[p],
            decreases m - j,
        {
            proof {
                let p = i * m + j;
                assert(i * m + j < n * m) by (nonlinear_arith)
                    requires
                        i < n,
                        j < m,
                ;
                lemma_fundamental_div_mod_converse(p, m as int, i as int, j as int);
            }
            rows.push(
                NewKey {
                    id: keys[i].id,
                    key_type: keys[i].key_type,
                    master_id: master_id.to_owned(),
                    consumer_id: consumer_ids[j].clone(),
                    size: keys[i].size,
                    content: keys[i].content.clone(),
                },
            );
            j = j + 1;
        }
        assert((i + 1) * m == i * m + m) by (nonlinear_arith);
        i = i + 1;
    }
    Ok(rows)
}

/// Checks the outcome of inserting a batch of `expected` rows: `inserted`
/// is the number of rows that storage reports, or `None` where it failed.
/// Anything but exactly `expected` rows is an internal error.
pub fn check_inserted(expected: usize, inserted: Option<usize>) -> (r: Result<(), Error>)
    ensures
        r is Ok <==> inserted == Some(expected),
        r is Err ==> r == Err::<(), Error>(Error::InternalError),
{
    match inserted {
        Some(n) => if n == expected {
            Ok(())
        } else {
            Err(Error::InternalError)
        },
        None => Err(Error::InternalError),
    }
}

/// Counts the enabled rows of key `id` under `master_id`, whatever their consumer.
pub fn lookup_count(rows: &[KeyRecord], id: u128, master_id: &str) -> (r: usize)
    ensures
        r == active_count(table_of(rows@), id, master_id@),
{
    let ghost t = table_of(rows@);
    let master = master_id.to_owned();
    let mut count: usize = 0;
    let mut i: usize = 0;
    assert(t.subrange(0, t.len() as int) =~= t);
    while i < rows.len()
        invariant
            t == table_of(rows@),
            master@ == master_id@,
            i <= rows@.len(),
            count <= i,
            count + active_count(t.subrange(i as int, t.len() as int), id, master_id@) == active_count(
                t,
                id,
                master_id@,
            ),
        decreases rows@.len() - i,
    {
        let ghost rest = t.subrange(i as int, t.len() as int);
        assert(rest.subrange(1, rest.len() as int) =~= t.subrange(i + 1, t.len() as int));
        assert(rest[0] == rows@[i as int]@);
        if rows[i].active && rows[i].id == id && rows[i].master_id == master {
            count = count + 1;
        }
        i = i + 1;
    }
    count
}

/// The enabled row of key `id` under `master_id` for `consumer_id`, if there
/// is one (the first, where there are several), projected to a key.
pub fn lookup_one(rows: &[KeyRecord], id: u128, master_id: &str, consumer_id: &str) -> (r: Option<
    Key,
>)
    ensures
        match r {
            Some(k) => active_key(table_of(rows@), id, master_id@, consumer_id@) == Some(k@),
            None => active_key(table_of(rows@), id, master_id@, consumer_id@) is None,
        },
{
    let ghost t = table_of(rows@);
    let master = master_id.to_owned();
    let consumer = consumer_id.to_owned();
    let mut i: usize = 0;
    assert(t.subrange(0, t.len() as int) =~= t);
    while i < rows.len()
        invariant
            t == table_of(rows@),
            master@ == master_id@,
            consumer@ == consumer_id@,
            i <= rows@.len(),
            active_key(t.subrange(i as int, t.len() as int), id, master_id@, consumer_id@)
                == active_key(t, id, master_id@, consumer_id@),
        decreases rows@.len() - i,
    {
        let ghost rest = t.subrange(i as int, t.len() as int);
        assert(rest.subrange(1, rest.len() as int) =~= t.subrange(i + 1, t.len() as int));
        assert(rest[0] == rows@[i as int]@);
        let row = &rows[i];
        if row.active && row.id == id && row.master_id == master && row.consumer_id == consumer {
            return Some(
                Key {
                    id: row.id,
                    content: row.content.clone(),
                    key_type: row.key_type,
                    size: row.size,
                },
            );
        }
        i = i + 1;
    }
    None
}

} // verus!
