use dynamodb_manager_backend::memo::MemoStore;
use dynamodb_manager_backend::service::assemble_attributes;
use dynamodb_manager_backend::service::sample_scan_limit;
use dynamodb_manager_backend::service::make_table_info;
use dynamodb_manager_backend::service::type_hint_for;
use dynamodb_manager_backend::service::ScalarKind;

#[test]
fn sample_scan_reads_five_rows() {
    assert_eq!(sample_scan_limit(), 5);
}

#[test]
fn type_hints_map_as_documented() {
    assert_eq!(type_hint_for(ScalarKind::S), "string");
    assert_eq!(type_hint_for(ScalarKind::N), "number");
    assert_eq!(type_hint_for(ScalarKind::B), "binary");
    assert_eq!(type_hint_for(ScalarKind::Other), "unknown");
}

#[test]
fn one_entry_per_definition_with_fresh_timestamp() {
    let defs = vec![
        ("id".to_string(), ScalarKind::S),
        ("count".to_string(), ScalarKind::N),
        ("blob".to_string(), ScalarKind::B),
    ];
    let memos = vec![Some("the key".to_string()), None, None];
    let attrs = assemble_attributes(&defs, &memos);
    assert_eq!(attrs.len(), 3);
    assert_eq!(attrs[0].attribute_name, "id");
    assert_eq!(attrs[0].type_hint, "string");
    assert_eq!(attrs[0].description, Some("the key".to_string()));
    assert_eq!(attrs[1].attribute_name, "count");
    assert_eq!(attrs[1].type_hint, "number");
    assert_eq!(attrs[1].description, None);
    assert_eq!(attrs[2].type_hint, "binary");
    for a in &attrs {
        let seen = a.last_seen_at.as_ref().expect("timestamp must be present");
        assert!(!seen.is_empty());
    }
}

#[test]
fn assemble_keeps_schema_order() {
    let defs = vec![
        ("z".to_string(), ScalarKind::N),
        ("a".to_string(), ScalarKind::S),
    ];
    let memos = vec![None, None];
    let attrs = assemble_attributes(&defs, &memos);
    assert_eq!(attrs[0].attribute_name, "z");
    assert_eq!(attrs[1].attribute_name, "a");
}

#[test]
fn stored_memo_shows_up_in_listing() {
    let mut store = MemoStore::new();
    store.put("users", "email", "x", "2024-01-01T00:00:00+00:00");
    let defs = vec![("email".to_string(), ScalarKind::S)];
    let memos = vec![store.get("users", "email")];
    let attrs = assemble_attributes(&defs, &memos);
    assert_eq!(attrs[0].description, Some("x".to_string()));
}

#[test]
fn table_info_carries_name_and_rows() {
    let defs = vec![("id".to_string(), ScalarKind::S)];
    let memos = vec![None];
    let attrs = assemble_attributes(&defs, &memos);
    let info = make_table_info("users", attrs);
    assert_eq!(info.table_name, "users");
    assert_eq!(info.attributes.len(), 1);
    assert_eq!(info.attributes[0].attribute_name, "id");
}
