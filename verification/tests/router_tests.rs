use dynamodb_manager_backend::router::route;
use dynamodb_manager_backend::router::Route;
use dynamodb_manager_backend::strings::split_by_str;
use dynamodb_manager_backend::strings::str_eq;
use dynamodb_manager_backend::strings::trim_prefix_str;
use dynamodb_manager_backend::strings::trim_suffix_str;

#[test]
fn route_list_tables() {
    assert!(matches!(route("GET", "/tables"), Route::ListTables));
}

#[test]
fn route_sample_precedence() {
    match route("GET", "/tables/foo/sample") {
        Route::GetSample { table } => assert_eq!(table, "foo"),
        _ => panic!("expected the sample route to win"),
    }
}

#[test]
fn route_get_attributes() {
    match route("GET", "/tables/foo") {
        Route::GetAttributes { table } => assert_eq!(table, "foo"),
        _ => panic!("expected attribute retrieval"),
    }
}

#[test]
fn route_get_attributes_trailing_slash() {
    match route("GET", "/tables/") {
        Route::GetAttributes { table } => assert_eq!(table, ""),
        _ => panic!("expected attribute retrieval"),
    }
}

#[test]
fn route_put_two_segments() {
    match route("PUT", "/tables/users/email") {
        Route::PutMemo { table, attribute } => {
            assert_eq!(table, "users");
            assert_eq!(attribute, "email");
        }
        _ => panic!("expected a memo update"),
    }
}

#[test]
fn route_put_three_segments_invalid() {
    assert!(matches!(route("PUT", "/tables/a/b/c"), Route::InvalidPutPath));
}

#[test]
fn route_put_one_segment_invalid() {
    assert!(matches!(route("PUT", "/tables/a"), Route::InvalidPutPath));
}

#[test]
fn route_options_any_path() {
    assert!(matches!(route("OPTIONS", "/tables"), Route::Preflight));
    assert!(matches!(route("OPTIONS", "/anything/else"), Route::Preflight));
    assert!(matches!(route("OPTIONS", ""), Route::Preflight));
}

#[test]
fn route_unknown_method_not_found() {
    assert!(matches!(route("DELETE", "/tables"), Route::NotFound));
    assert!(matches!(route("POST", "/tables/a/b"), Route::NotFound));
}

#[test]
fn route_unknown_path_not_found() {
    assert!(matches!(route("GET", "/health"), Route::NotFound));
    assert!(matches!(route("GET", "tables"), Route::NotFound));
}

#[test]
fn trim_prefix_matches_std() {
    let cases = ["/tables/x", "/tables//tables/x", "/tables/", "/tables", "x/tables/"];
    for s in cases {
        assert_eq!(trim_prefix_str(s, "/tables/"), s.trim_start_matches("/tables/"), "{s}");
    }
}

#[test]
fn trim_suffix_matches_std() {
    let cases = ["x/sample", "x/sample/sample", "/sample", "sample", "x"];
    for s in cases {
        assert_eq!(trim_suffix_str(s, "/sample"), s.trim_end_matches("/sample"), "{s}");
    }
}

#[test]
fn split_matches_std() {
    let cases = ["a/b", "a/b/c", "", "/", "a//b", "a/", "/a"];
    for s in cases {
        let got = split_by_str(s, '/');
        let want: Vec<&str> = s.split('/').collect();
        assert_eq!(got, want, "{s}");
    }
}

#[test]
fn str_eq_matches_std() {
    assert!(str_eq("abc", "abc"));
    assert!(!str_eq("abc", "abd"));
    assert!(!str_eq("abc", "abcd"));
    assert!(str_eq("", ""));
}

#[test]
fn route_sample_with_repeated_suffix() {
    // The literal trim removes every trailing repetition, exactly as
    // str::trim_end_matches does.
    match route("GET", "/tables/x/sample/sample") {
        Route::GetSample { table } => assert_eq!(table, "x"),
        _ => panic!("expected the sample route"),
    }
}
