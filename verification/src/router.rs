//! The request router: four logical routes matched in order on
//! (method, path), with the literal-trim and segment-split semantics of
//! the matching done first-match-wins.

use vstd::prelude::*;
use crate::strings::starts_with;
use crate::strings::ends_with;
use crate::strings::trim_prefix;
use crate::strings::trim_suffix;
use crate::strings::split_from;
use crate::strings::str_eq;
use crate::strings::starts_with_str;
use crate::strings::ends_with_str;
use crate::strings::trim_prefix_str;
use crate::strings::trim_suffix_str;
use crate::strings::split_by_str;

verus! {

/// The dispatch decision for one request.
pub enum Route {
    ListTables,
    GetSample { table: String },
    GetAttributes { table: String },
    PutMemo { table: String, attribute: String },
    InvalidPutPath,
    Preflight,
    NotFound,
}

pub enum RouteModel {
    ListTables,
    GetSample { table: Seq<char> },
    GetAttributes { table: Seq<char> },
    PutMemo { table: Seq<char>, attribute: Seq<char> },
    InvalidPutPath,
    Preflight,
    NotFound,
}

impl View for Route {
    type V = RouteModel;

    open spec fn view(&self) -> RouteModel {
        match self {
            Route::ListTables => RouteModel::ListTables,
            Route::GetSample { table } => RouteModel::GetSample { table: table@ },
            Route::GetAttributes { table } => RouteModel::GetAttributes { table: table@ },
            Route::PutMemo { table, attribute } => RouteModel::PutMemo {
                table: table@,
                attribute: attribute@,
            },
            Route::InvalidPutPath => RouteModel::InvalidPutPath,
            Route::Preflight => RouteModel::Preflight,
            Route::NotFound => RouteModel::NotFound,
        }
    }
}

/// The path segments a PUT sees after the `/tables/` prefix is trimmed.
pub open spec fn put_segments(p: Seq<char>) -> Seq<Seq<char>> {
    split_from(trim_prefix(p, "/tables/"@), 0, '/')
}

/// The route table, first match wins: exact `GET /tables`; `GET` under
/// `/tables/` ending in `/sample`; any other `GET` under `/tables/`;
/// `PUT` under `/tables/` with exactly two segments (else an invalid
/// path); `OPTIONS` anywhere; everything else unmatched.
pub open spec fn spec_route(m: Seq<char>, p: Seq<char>) -> RouteModel {
    if m == "GET"@ && p == "/tables"@ {
        RouteModel::ListTables
    } else if m == "GET"@ && starts_with(p, "/tables/"@) && ends_with(p, "/sample"@) {
        RouteModel::GetSample { table: trim_suffix(trim_prefix(p, "/tables/"@), "/sample"@) }
    } else if m == "GET"@ && starts_with(p, "/tables/"@) {
        RouteModel::GetAttributes { table: trim_prefix(p, "/tables/"@) }
    } else if m == "PUT"@ && starts_with(p, "/tables/"@) {
        if put_segments(p).len() == 2 {
            RouteModel::PutMemo { table: put_segments(p)[0], attribute: put_segments(p)[1] }
        } else {
            RouteModel::InvalidPutPath
        }
    } else if m == "OPTIONS"@ {
        RouteModel::Preflight
    } else {
        RouteModel::NotFound
    }
}

pub fn route(method: &str, path: &str) -> (r: Route)
    ensures
        r@ == spec_route(method@, path@),
{
    if str_eq(method, "GET") && str_eq(path, "/tables") {
        Route::ListTables
    } else if str_eq(method, "GET") && starts_with_str(path, "/tables/") && ends_with_str(
        path,
        "/sample",
    ) {
        let t = trim_suffix_str(trim_prefix_str(path, "/tables/"), "/sample");
        Route::GetSample { table: t.to_owned() }
    } else if str_eq(method, "GET") && starts_with_str(path, "/tables/") {
        let t = trim_prefix_str(path, "/tables/");
        Route::GetAttributes { table: t.to_owned() }
    } else if str_eq(method, "PUT") && starts_with_str(path, "/tables/") {
        let rest = trim_prefix_str(path, "/tables/");
        let parts = split_by_str(rest, '/');
        proof {
            assert(parts.deep_view().len() == parts@.len());
        }
        if parts.len() == 2 {
            proof {
                assert(parts.deep_view()[0] == parts@[0]@);
                assert(parts.deep_view()[1] == parts@[1]@);
            }
            Route::PutMemo { table: parts[0].clone(), attribute: parts[1].clone() }
        } else {
            Route::InvalidPutPath
        }
    } else if str_eq(method, "OPTIONS") {
        Route::Preflight
    } else {
        Route::NotFound
    }
}

/// Law: a `GET` whose path sits under `/tables/` and ends in `/sample`
/// dispatches to sample retrieval, never to generic attribute retrieval,
/// although both patterns cover the path.
pub proof fn lemma_sample_route_precedence(m: Seq<char>, p: Seq<char>)
    requires
        m == "GET"@,
        starts_with(p, "/tables/"@),
        ends_with(p, "/sample"@),
    ensures
        spec_route(m, p) is GetSample,
{
    reveal_strlit("/tables");
    reveal_strlit("/tables/");
    assert(p != "/tables"@);
}

/// Law: an `OPTIONS` request is answered with the preflight response,
/// whatever its path.
pub proof fn lemma_options_always_preflight(m: Seq<char>, p: Seq<char>)
    requires
        m == "OPTIONS"@,
    ensures
        spec_route(m, p) is Preflight,
{
    reveal_strlit("OPTIONS");
    reveal_strlit("GET");
    reveal_strlit("PUT");
    assert("OPTIONS"@.len() == 7);
    assert("GET"@.len() == 3);
    assert("PUT"@.len() == 3);
    assert(m != "GET"@);
    assert(m != "PUT"@);
}

/// Law: a `PUT` under `/tables/` whose trimmed path does not split into
/// exactly two segments is rejected as an invalid path.
pub proof fn lemma_put_bad_segments(m: Seq<char>, p: Seq<char>)
    requires
        m == "PUT"@,
        starts_with(p, "/tables/"@),
        put_segments(p).len() != 2,
    ensures
        spec_route(m, p) is InvalidPutPath,
{
    reveal_strlit("PUT");
    reveal_strlit("GET");
    assert("PUT"@[0] == 'P');
    assert("GET"@[0] == 'G');
    assert(m != "GET"@);
}

/// Law: a method other than `GET`, `PUT` or `OPTIONS` always falls
/// through to the not-found response.
pub proof fn lemma_unknown_method_not_found(m: Seq<char>, p: Seq<char>)
    requires
        m != "GET"@,
        m != "PUT"@,
        m != "OPTIONS"@,
    ensures
        spec_route(m, p) is NotFound,
{
}

} // verus!
