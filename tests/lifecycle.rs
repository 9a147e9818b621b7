use qkd_keys::error::Error;
use qkd_keys::keygen::{generate_random_keys, Key, KEY_TYPE_OBLIVIOUS, KEY_TYPE_STANDARD};
use qkd_keys::oblivious::oblivious_content;
use qkd_keys::retrieve::{get_multiple_keys, retrieve_key, Lookup};
use qkd_keys::store::{check_inserted, lookup_count, lookup_one, save_keys, KeyRecord};

fn saved_table(keys: &[Key], master: &str, consumers: &[&str]) -> Vec<KeyRecord> {
    let consumers: Vec<String> = consumers.iter().map(|c| c.to_string()).collect();
    let rows = save_keys(keys, master, &consumers).unwrap();
    rows.into_iter().map(|r| KeyRecord::stored(r, true)).collect()
}

fn reads(table: &[KeyRecord], id: u128, master: &str, consumer: &str) -> Lookup {
    Lookup::Found {
        count: lookup_count(table, id, master) as i64,
        record: lookup_one(table, id, master, consumer),
    }
}

fn request(table: &[KeyRecord], ids: &[u128], master: &str, consumer: &str) -> Result<Vec<Key>, Error> {
    let lookups: Vec<Lookup> = ids.iter().map(|id| reads(table, *id, master, consumer)).collect();
    get_multiple_keys(ids, master, consumer, &lookups)
}

#[test]
fn save_builds_one_row_per_key_and_consumer() {
    let keys = generate_random_keys(64, 3, KEY_TYPE_STANDARD).unwrap();
    let consumers = vec!["c1".to_string(), "c2".to_string()];
    let rows = save_keys(&keys, "m", &consumers).unwrap();
    assert_eq!(rows.len(), 6);
    for (p, row) in rows.iter().enumerate() {
        let k = &keys[p / 2];
        assert_eq!(row.id, k.id);
        assert_eq!(row.content, k.content);
        assert_eq!(row.key_type, k.key_type);
        assert_eq!(row.size, k.size);
        assert_eq!(row.master_id, "m");
        assert_eq!(row.consumer_id, consumers[p % 2]);
    }
    assert!(save_keys(&keys, "m", &[]).unwrap().is_empty());
    assert!(save_keys(&[], "m", &consumers).unwrap().is_empty());
}

#[test]
fn every_saved_pair_is_retrievable() {
    let keys = generate_random_keys(128, 2, KEY_TYPE_STANDARD).unwrap();
    let table = saved_table(&keys, "A", &["B", "C", "D"]);
    assert_eq!(table.len(), 6);
    for k in &keys {
        assert_eq!(lookup_count(&table, k.id, "A"), 3);
        for c in ["B", "C", "D"] {
            let got = request(&table, &[k.id], "A", c).unwrap();
            assert_eq!(got.len(), 1);
            assert_eq!(got[0].content, k.content);
        }
    }
}

#[test]
fn inserted_count_must_match() {
    assert_eq!(check_inserted(4, Some(4)), Ok(()));
    assert_eq!(check_inserted(4, Some(3)), Err(Error::InternalError));
    assert_eq!(check_inserted(4, None), Err(Error::InternalError));
    assert_eq!(check_inserted(0, Some(0)), Ok(()));
}

#[test]
fn standard_key_round_trip() {
    let keys = generate_random_keys(128, 1, KEY_TYPE_STANDARD).unwrap();
    let table = saved_table(&keys, "A", &["B"]);
    let got = request(&table, &[keys[0].id], "A", "B").unwrap();
    assert_eq!(got.len(), 1);
    assert_eq!(got[0].id, keys[0].id);
    assert_eq!(got[0].content, keys[0].content);
    assert_eq!(got[0].key_type, KEY_TYPE_STANDARD);
    assert_eq!(got[0].size, 128);
}

#[test]
fn oblivious_key_is_deterministic_per_consumer() {
    let keys = generate_random_keys(256, 1, KEY_TYPE_OBLIVIOUS).unwrap();
    let id = keys[0].id;
    let table = saved_table(&keys, "A", &["B", "E"]);
    let first = request(&table, &[id], "A", "B").unwrap();
    let second = request(&table, &[id], "A", "B").unwrap();
    assert_eq!(first[0].content, second[0].content);
    assert_ne!(first[0].content, keys[0].content);
    assert_eq!(first[0].content, oblivious_content(&keys[0].content, "A", "B", id).unwrap());
    assert_eq!(first[0].size, 256);
    assert_eq!(first[0].key_type, KEY_TYPE_OBLIVIOUS);
    let for_e = request(&table, &[id], "A", "E").unwrap();
    assert_ne!(first[0].content, for_e[0].content);
    assert_eq!(request(&table, &[id], "A", "C").unwrap_err(), Error::Unauthorized);
}

#[test]
fn wrong_consumer_and_wrong_master() {
    let keys = generate_random_keys(128, 1, KEY_TYPE_STANDARD).unwrap();
    let id = keys[0].id;
    let table = saved_table(&keys, "A", &["B"]);
    assert_eq!(request(&table, &[id], "A", "D").unwrap_err(), Error::Unauthorized);
    assert_eq!(request(&table, &[id], "Z", "B").unwrap_err(), Error::NotFound);
}

#[test]
fn example_service_scenario() {
    let keys = generate_random_keys(128, 1, KEY_TYPE_STANDARD).unwrap();
    let id = keys[0].id;
    let consumers = vec!["sae-2".to_string(), "sae-3".to_string()];
    let rows = save_keys(&keys, "sae-1", &consumers).unwrap();
    assert_eq!(rows.len(), 2);
    assert!(rows.iter().all(|r| r.id == id));
    let table: Vec<KeyRecord> = rows.into_iter().map(|r| KeyRecord::stored(r, true)).collect();
    let got = request(&table, &[id], "sae-1", "sae-2").unwrap();
    assert_eq!(got[0].content, keys[0].content);
    assert_eq!(got[0].content.len(), 24);
    assert_eq!(request(&table, &[id], "sae-1", "sae-9").unwrap_err(), Error::Unauthorized);
    assert_eq!(request(&table, &[id], "sae-x", "sae-2").unwrap_err(), Error::NotFound);
}

#[test]
fn failing_second_id_fails_whole_request() {
    let keys = generate_random_keys(64, 2, KEY_TYPE_STANDARD).unwrap();
    let table = saved_table(&keys, "A", &["B"]);
    let missing: u128 = keys[0].id ^ keys[1].id ^ 1;
    assert!(request(&table, &[keys[0].id, keys[1].id], "A", "B").is_ok());
    assert_eq!(request(&table, &[keys[0].id, missing, keys[1].id], "A", "B").unwrap_err(), Error::NotFound);
}

#[test]
fn disabled_rows_are_not_found() {
    let keys = generate_random_keys(64, 1, KEY_TYPE_STANDARD).unwrap();
    let consumers = vec!["B".to_string()];
    let rows = save_keys(&keys, "A", &consumers).unwrap();
    let table: Vec<KeyRecord> = rows.into_iter().map(|r| KeyRecord::stored(r, false)).collect();
    assert_eq!(lookup_count(&table, keys[0].id, "A"), 0);
    assert!(lookup_one(&table, keys[0].id, "A", "B").is_none());
    assert_eq!(request(&table, &[keys[0].id], "A", "B").unwrap_err(), Error::NotFound);
}

#[test]
fn single_decision_cases() {
    let key = Key { id: 5, content: "AAAA".to_string(), key_type: KEY_TYPE_STANDARD, size: 24 };
    assert_eq!(retrieve_key(5, "A", "B", &Lookup::Failed).unwrap_err(), Error::InternalError);
    let found = Lookup::Found { count: 1, record: Some(key) };
    assert_eq!(retrieve_key(5, "A", "B", &found).unwrap().content, "AAAA");
    let absent = Lookup::Found { count: 2, record: None };
    assert_eq!(retrieve_key(5, "A", "B", &absent).unwrap_err(), Error::Unauthorized);
    let none = Lookup::Found { count: 0, record: None };
    assert_eq!(retrieve_key(5, "A", "B", &none).unwrap_err(), Error::NotFound);
    let broken = Key { id: 5, content: "%%".to_string(), key_type: KEY_TYPE_OBLIVIOUS, size: 8 };
    let bad = Lookup::Found { count: 1, record: Some(broken) };
    assert_eq!(retrieve_key(5, "A", "B", &bad).unwrap_err(), Error::InternalError);
    assert!(get_multiple_keys(&[], "A", "B", &[]).unwrap().is_empty());
}
