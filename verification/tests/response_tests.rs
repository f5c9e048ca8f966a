use dynamodb_manager_backend::response::invalid_path_response;
use dynamodb_manager_backend::response::list_tables_response;
use dynamodb_manager_backend::response::not_found_response;
use dynamodb_manager_backend::response::preflight_response;
use dynamodb_manager_backend::response::sample_response;
use dynamodb_manager_backend::response::table_info_response;
use dynamodb_manager_backend::response::update_success_response;
use dynamodb_manager_backend::response::ResponseBody;
use dynamodb_manager_backend::service::make_table_info;
use dynamodb_manager_backend::values::AttrValue;
use dynamodb_manager_backend::values::JsonScalar;

fn header<'a>(hs: &'a [(String, String)], name: &str) -> Option<&'a str> {
    hs.iter().find(|(k, _)| k == name).map(|(_, v)| v.as_str())
}

#[test]
fn preflight_has_no_body_and_three_cors_headers() {
    let r = preflight_response();
    assert_eq!(r.status, 204);
    assert_eq!(r.headers.len(), 3);
    assert_eq!(header(&r.headers, "Access-Control-Allow-Origin"), Some("*"));
    assert_eq!(
        header(&r.headers, "Access-Control-Allow-Methods"),
        Some("GET, POST, PUT, OPTIONS")
    );
    assert_eq!(header(&r.headers, "Access-Control-Allow-Headers"), Some("Content-Type"));
    match &r.body {
        ResponseBody::Text(t) => assert!(t.is_empty()),
        _ => panic!("expected an empty text body"),
    }
}

#[test]
fn not_found_is_404_with_text() {
    let r = not_found_response();
    assert_eq!(r.status, 404);
    assert_eq!(header(&r.headers, "Access-Control-Allow-Origin"), Some("*"));
    match &r.body {
        ResponseBody::Text(t) => assert_eq!(t, "Not Found"),
        _ => panic!("expected a text body"),
    }
}

#[test]
fn invalid_path_is_400_with_text() {
    let r = invalid_path_response();
    assert_eq!(r.status, 400);
    assert_eq!(header(&r.headers, "Access-Control-Allow-Origin"), Some("*"));
    match &r.body {
        ResponseBody::Text(t) => assert_eq!(t, "Invalid path format"),
        _ => panic!("expected a text body"),
    }
}

#[test]
fn list_tables_is_200_json() {
    let r = list_tables_response(vec!["users".to_string(), "orders".to_string()]);
    assert_eq!(r.status, 200);
    assert_eq!(header(&r.headers, "content-type"), Some("application/json"));
    assert_eq!(header(&r.headers, "Access-Control-Allow-Origin"), Some("*"));
    match &r.body {
        ResponseBody::TablesJson(names) => assert_eq!(names, &["users", "orders"]),
        _ => panic!("expected the table list"),
    }
}

#[test]
fn update_success_is_200_json() {
    let r = update_success_response();
    assert_eq!(r.status, 200);
    assert_eq!(header(&r.headers, "content-type"), Some("application/json"));
    assert!(matches!(r.body, ResponseBody::SuccessJson));
}

#[test]
fn table_info_response_wraps_listing() {
    let info = make_table_info("users", Vec::new());
    let r = table_info_response(info);
    assert_eq!(r.status, 200);
    match &r.body {
        ResponseBody::TableInfoJson(ti) => assert_eq!(ti.table_name, "users"),
        _ => panic!("expected the table info body"),
    }
}

#[test]
fn sample_rows_are_translated() {
    let rows = vec![vec![
        ("n".to_string(), AttrValue::N("42".to_string())),
        ("f".to_string(), AttrValue::N("3.14".to_string())),
        ("raw".to_string(), AttrValue::N("abc".to_string())),
        ("s".to_string(), AttrValue::S("hi".to_string())),
        ("b".to_string(), AttrValue::Bool(false)),
        ("nul".to_string(), AttrValue::Null(true)),
    ]];
    let r = sample_response(&rows);
    assert_eq!(r.status, 200);
    let ss = match &r.body {
        ResponseBody::SamplesJson(ss) => ss,
        _ => panic!("expected sample rows"),
    };
    assert_eq!(ss.len(), 1);
    let row = &ss[0];
    assert_eq!(row.len(), 6);
    assert_eq!(row[0].0, "n");
    assert!(matches!(row[0].1, JsonScalar::Int(42)));
    match &row[1].1 {
        JsonScalar::FloatLit(s) => assert_eq!(s, "3.14"),
        _ => panic!("expected a decimal literal"),
    }
    match &row[2].1 {
        JsonScalar::Str(s) => assert_eq!(s, "abc"),
        _ => panic!("expected the raw string"),
    }
    match &row[3].1 {
        JsonScalar::Str(s) => assert_eq!(s, "hi"),
        _ => panic!("expected a string"),
    }
    assert!(matches!(row[4].1, JsonScalar::Bool(false)));
    assert!(matches!(row[5].1, JsonScalar::Null));
}

#[test]
fn sample_of_no_rows_is_empty() {
    let r = sample_response(&Vec::new());
    match &r.body {
        ResponseBody::SamplesJson(ss) => assert!(ss.is_empty()),
        _ => panic!("expected sample rows"),
    }
}
