use websxz_accounts_backend::utils::store::{
    copy_fields, email_verify_key, find_field, oauth_key, refresh_key, store_refresh_token,
    EphemeralStore, InsertRefreshToken, StoreCommand, EMAIL_VERIFY_TTL, OAUTH_CODE_TTL, REFRESH_TTL,
};

fn pairs(items: &[(&str, &str)]) -> Vec<(String, String)> {
    items.iter().map(|(a, b)| (a.to_string(), b.to_string())).collect()
}

#[test]
fn lifetimes_are_as_stated() {
    assert_eq!(REFRESH_TTL, 7_776_000);
    assert_eq!(EMAIL_VERIFY_TTL, 86_400);
    assert_eq!(OAUTH_CODE_TTL, 300);
}

#[test]
fn keys_carry_their_prefix() {
    assert_eq!(refresh_key("abc"), "refresh:abc");
    assert_eq!(email_verify_key("abc"), "email_verify:abc");
    assert_eq!(oauth_key("abc"), "oauth:abc");
    assert_eq!(refresh_key(""), "refresh:");
}

#[test]
fn empty_store_holds_nothing() {
    let store = EphemeralStore::new();
    assert!(!store.contains_key("k", 0));
    assert_eq!(store.get("k", 0), None);
    assert_eq!(store.get_field("k", "f", 0), None);
}

#[test]
fn value_is_visible_until_it_expires() {
    let mut store = EphemeralStore::new();
    store.set_with_ttl("k", "v", 10, 100);
    assert_eq!(store.get("k", 100), Some("v".to_string()));
    assert_eq!(store.get("k", 109), Some("v".to_string()));
    assert!(store.contains_key("k", 109));
    assert_eq!(store.get("k", 110), None);
    assert!(!store.contains_key("k", 110));
    assert_eq!(store.get("k", u64::MAX), None);
    assert_eq!(store.get("other", 100), None);
}

#[test]
fn zero_ttl_is_never_visible() {
    let mut store = EphemeralStore::new();
    store.set_with_ttl("k", "v", 0, 100);
    assert_eq!(store.get("k", 100), None);
    assert!(!store.contains_key("k", 100));
}

#[test]
fn expiry_stops_at_the_last_second() {
    let mut store = EphemeralStore::new();
    store.set_with_ttl("k", "v", u64::MAX, 5);
    assert_eq!(store.get("k", u64::MAX - 1), Some("v".to_string()));
    assert_eq!(store.get("k", u64::MAX), None);
}

#[test]
fn writes_replace_what_was_there() {
    let mut store = EphemeralStore::new();
    store.set_with_ttl("k", "v", 10, 0);
    store.set_with_ttl("k", "w", 20, 5);
    assert_eq!(store.get("k", 12), Some("w".to_string()));
    assert_eq!(store.get("k", 24), Some("w".to_string()));
    assert_eq!(store.get("k", 25), None);
    store.put_fields("k", &pairs(&[("a", "1")]), 10, 0);
    assert_eq!(store.get("k", 1), None);
    assert_eq!(store.get_field("k", "a", 1), Some("1".to_string()));
    store.put_fields("k", &pairs(&[("b", "2")]), 10, 0);
    assert_eq!(store.get_field("k", "a", 1), None);
    assert_eq!(store.get_field("k", "b", 1), Some("2".to_string()));
    store.set_with_ttl("k", "v", 10, 0);
    assert_eq!(store.get_field("k", "b", 1), None);
    assert!(store.contains_key("k", 1));
}

#[test]
fn fields_are_written_together_and_read_by_name() {
    let mut store = EphemeralStore::new();
    store.put_fields("k", &pairs(&[("email", "a@b.com"), ("hashed_password", "h")]), 60, 1_000);
    let names = vec!["hashed_password".to_string(), "missing".to_string(), "email".to_string()];
    assert_eq!(
        store.get_fields("k", &names, 1_059),
        vec![Some("h".to_string()), None, Some("a@b.com".to_string())]
    );
    assert_eq!(store.get_fields("k", &names, 1_060), vec![None, None, None]);
    assert_eq!(store.get_fields("other", &names, 1_000), vec![None, None, None]);
    assert_eq!(store.get_fields("k", &Vec::new(), 1_000), Vec::<Option<String>>::new());
}

#[test]
fn later_field_of_the_same_name_counts() {
    let fields = pairs(&[("a", "1"), ("b", "2"), ("a", "3")]);
    assert_eq!(find_field(&fields, "a"), Some("3".to_string()));
    assert_eq!(find_field(&fields, "b"), Some("2".to_string()));
    assert_eq!(find_field(&fields, "c"), None);
    assert_eq!(find_field(&Vec::new(), "a"), None);
    assert_eq!(copy_fields(&fields), fields);
}

#[test]
fn delete_removes_only_its_key() {
    let mut store = EphemeralStore::new();
    store.set_with_ttl("a", "1", 10, 0);
    store.set_with_ttl("b", "2", 10, 0);
    store.set_with_ttl("c", "3", 10, 0);
    store.delete("b");
    assert_eq!(store.get("a", 1), Some("1".to_string()));
    assert_eq!(store.get("b", 1), None);
    assert_eq!(store.get("c", 1), Some("3".to_string()));
    store.delete("b");
    store.delete("never");
    assert_eq!(store.get("a", 1), Some("1".to_string()));
}

#[test]
fn commands_are_carried_out_in_order() {
    let mut store = EphemeralStore::new();
    let commands = vec![
        StoreCommand::SetWithTtl { key: "a".to_string(), value: "1".to_string(), ttl: 10 },
        StoreCommand::PutFields { key: "b".to_string(), fields: pairs(&[("f", "x")]), ttl: 10 },
        StoreCommand::Delete { key: "a".to_string() },
        StoreCommand::SetWithTtl { key: "c".to_string(), value: "3".to_string(), ttl: 5 },
        StoreCommand::Delete { key: "c".to_string() },
        StoreCommand::SetWithTtl { key: "c".to_string(), value: "4".to_string(), ttl: 5 },
    ];
    store.execute_all(&commands, 100);
    assert_eq!(store.get("a", 100), None);
    assert_eq!(store.get_field("b", "f", 100), Some("x".to_string()));
    assert_eq!(store.get("c", 104), Some("4".to_string()));
    assert_eq!(store.get("c", 105), None);
    store.execute(&StoreCommand::Delete { key: "b".to_string() }, 100);
    assert!(!store.contains_key("b", 100));
}

#[test]
fn refresh_tokens_are_filed_for_ninety_days() {
    let mut store = EphemeralStore::new();
    assert_eq!(store.insert_refresh_token("tok", 77, 1_000), Ok(()));
    assert_eq!(store.get("refresh:tok", 1_000), Some("77".to_string()));
    assert_eq!(store.get("refresh:tok", 1_000 + REFRESH_TTL - 1), Some("77".to_string()));
    assert_eq!(store.get("refresh:tok", 1_000 + REFRESH_TTL), None);
    match store_refresh_token("t", 5) {
        StoreCommand::SetWithTtl { key, value, ttl } => {
            assert_eq!(key, "refresh:t");
            assert_eq!(value, "5");
            assert_eq!(ttl, REFRESH_TTL);
        }
        other => panic!("unexpected command {:?}", other),
    }
}

#[test]
fn putting_no_fields_removes_the_record() {
    let mut store = EphemeralStore::new();
    store.put_fields("k", &pairs(&[("a", "1")]), 10, 0);
    store.put_fields("k", &Vec::new(), 10, 0);
    assert!(!store.contains_key("k", 1));
    assert_eq!(store.get_field("k", "a", 1), None);
    store.put_fields("fresh", &Vec::new(), 10, 0);
    assert!(!store.contains_key("fresh", 1));
}

#[test]
fn purge_forgets_only_what_has_expired() {
    let mut store = EphemeralStore::new();
    store.set_with_ttl("short", "1", 10, 0);
    store.set_with_ttl("long", "2", 100, 0);
    store.put_fields("fields", &pairs(&[("a", "x")]), 11, 0);
    store.set_with_ttl("never", "3", 0, 5);
    store.purge(10);
    assert_eq!(store.get("short", 10), None);
    assert_eq!(store.get("short", 0), None);
    assert_eq!(store.get("never", 0), None);
    assert_eq!(store.get("long", 10), Some("2".to_string()));
    assert_eq!(store.get_field("fields", "a", 10), Some("x".to_string()));
    store.purge(11);
    assert_eq!(store.get_field("fields", "a", 0), None);
    assert_eq!(store.get("long", 99), Some("2".to_string()));
    store.purge(u64::MAX);
    assert_eq!(store.get("long", 0), None);
    store.purge(0);
    store.set_with_ttl("again", "4", 1, 0);
    assert_eq!(store.get("again", 0), Some("4".to_string()));
}
