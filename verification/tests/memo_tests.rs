use dynamodb_manager_backend::memo::extract_description;
use dynamodb_manager_backend::memo::memo_item;
use dynamodb_manager_backend::memo::memo_item_from_body;
use dynamodb_manager_backend::memo::memo_key;
use dynamodb_manager_backend::memo::meta_table_name;
use dynamodb_manager_backend::memo::MemoStore;
use dynamodb_manager_backend::values::AttrValue;

fn attr_s(v: &AttrValue) -> &str {
    match v {
        AttrValue::S(s) => s,
        _ => panic!("expected a string-tagged value"),
    }
}

#[test]
fn meta_table_name_is_fixed() {
    assert_eq!(meta_table_name(), "dynamodb-admin-meta");
}

#[test]
fn fresh_store_has_no_memo() {
    let store = MemoStore::new();
    assert_eq!(store.get("users", "email"), None);
}

#[test]
fn memo_round_trip() {
    let mut store = MemoStore::new();
    store.put("users", "email", "x", "2024-01-01T00:00:00+00:00");
    assert_eq!(store.get("users", "email"), Some("x".to_string()));
}

#[test]
fn memo_update_idempotent() {
    let mut store = MemoStore::new();
    store.put("users", "email", "x", "2024-01-01T00:00:00+00:00");
    store.put("users", "email", "x", "2024-02-02T00:00:00+00:00");
    assert_eq!(store.get("users", "email"), Some("x".to_string()));
    assert_eq!(store.records.len(), 1);
}

#[test]
fn memo_overwrite_wins() {
    let mut store = MemoStore::new();
    store.put("users", "email", "first", "2024-01-01T00:00:00+00:00");
    store.put("users", "email", "second", "2024-02-02T00:00:00+00:00");
    assert_eq!(store.get("users", "email"), Some("second".to_string()));
    assert_eq!(store.records.len(), 1);
}

#[test]
fn empty_description_is_present_not_absent() {
    let mut store = MemoStore::new();
    store.put("users", "email", "", "2024-01-01T00:00:00+00:00");
    assert_eq!(store.get("users", "email"), Some(String::new()));
    assert_eq!(store.get("users", "name"), None);
}

#[test]
fn memo_for_other_pair_stays_absent() {
    let mut store = MemoStore::new();
    store.put("users", "email", "x", "2024-01-01T00:00:00+00:00");
    assert_eq!(store.get("users", "name"), None);
    assert_eq!(store.get("orders", "email"), None);
}

#[test]
fn memo_key_shape() {
    let key = memo_key("users", "email");
    assert_eq!(key.len(), 2);
    assert_eq!(key[0].0, "table_name");
    assert_eq!(attr_s(&key[0].1), "users");
    assert_eq!(key[1].0, "attribute_name");
    assert_eq!(attr_s(&key[1].1), "email");
}

#[test]
fn memo_item_shape() {
    let item = memo_item("users", "email", "the address", "2024-01-01T00:00:00+00:00");
    assert_eq!(item.len(), 4);
    assert_eq!(item[2].0, "description");
    assert_eq!(attr_s(&item[2].1), "the address");
    assert_eq!(item[3].0, "last_seen_at");
    assert_eq!(attr_s(&item[3].1), "2024-01-01T00:00:00+00:00");
}

#[test]
fn extract_description_reads_item_back() {
    let item = memo_item("users", "email", "the address", "2024-01-01T00:00:00+00:00");
    assert_eq!(extract_description(Some(&item)), Some("the address".to_string()));
}

#[test]
fn extract_description_of_missing_item_is_absent() {
    assert_eq!(extract_description(None), None);
}

#[test]
fn extract_description_without_field_is_absent() {
    let item = memo_key("users", "email");
    assert_eq!(extract_description(Some(&item)), None);
}

#[test]
fn extract_description_of_non_string_field_is_absent() {
    let item = vec![("description".to_string(), AttrValue::N("5".to_string()))];
    assert_eq!(extract_description(Some(&item)), None);
}

#[test]
fn put_body_with_string_description_builds_item() {
    let item = memo_item_from_body("users", "email", "{\"description\":\"x\"}").unwrap();
    assert_eq!(item.len(), 4);
    assert_eq!(attr_s(&item[0].1), "users");
    assert_eq!(attr_s(&item[1].1), "email");
    assert_eq!(attr_s(&item[2].1), "x");
    assert!(!attr_s(&item[3].1).is_empty());
}

#[test]
fn put_body_with_extra_fields_still_parses() {
    let item = memo_item_from_body("t", "a", "{\"other\":1,\"description\":\"d\"}").unwrap();
    assert_eq!(attr_s(&item[2].1), "d");
}

#[test]
fn put_body_rejections() {
    assert!(memo_item_from_body("t", "a", "not json").is_none());
    assert!(memo_item_from_body("t", "a", "{}").is_none());
    assert!(memo_item_from_body("t", "a", "{\"description\":5}").is_none());
    assert!(memo_item_from_body("t", "a", "[\"description\"]").is_none());
    assert!(memo_item_from_body("t", "a", "\"description\"").is_none());
}

#[test]
fn fresh_item_timestamp_looks_like_rfc3339() {
    let item = memo_item_from_body("t", "a", "{\"description\":\"d\"}").unwrap();
    let ts = attr_s(&item[3].1);
    // e.g. 2024-01-01T00:00:00.000000000+00:00
    assert!(ts.len() >= 20, "{ts}");
    assert_eq!(&ts[4..5], "-");
    assert_eq!(&ts[10..11], "T");
}
