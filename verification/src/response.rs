//! HTTP response shaping: status, headers and a structured body for each
//! route outcome. Every successful JSON response carries a content type
//! and the open CORS origin; the preflight answer carries the three CORS
//! headers and no body. The unverified edge serializes the structured
//! bodies to JSON text.

use vstd::prelude::*;
use crate::values::AttrValue;
use crate::values::JsonScalar;
use crate::values::spec_translate;
use crate::values::translate_item;
use crate::service::TableInfo;

verus! {

/// The body of a response, still structured; serialization happens at
/// the transport edge.
pub enum ResponseBody {
    Text(String),
    TablesJson(Vec<String>),
    SamplesJson(Vec<Vec<(String, JsonScalar)>>),
    TableInfoJson(TableInfo),
    SuccessJson,
}

pub struct ApiResponse {
    pub status: u16,
    pub headers: Vec<(String, String)>,
    pub body: ResponseBody,
}

/// The headers of every successful JSON response: a JSON content type
/// and the open CORS origin.
pub open spec fn json_cors_headers(hs: Seq<(String, String)>) -> bool {
    &&& hs.len() == 2
    &&& hs[0].0@ == "content-type"@
    &&& hs[0].1@ == "application/json"@
    &&& hs[1].0@ == "Access-Control-Allow-Origin"@
    &&& hs[1].1@ == "*"@
}

fn json_headers() -> (r: Vec<(String, String)>)
    ensures
        json_cors_headers(r@),
{
    let mut r: Vec<(String, String)> = Vec::new();
    r.push(("content-type".to_owned(), "application/json".to_owned()));
    r.push(("Access-Control-Allow-Origin".to_owned(), "*".to_owned()));
    r
}

fn origin_only_headers() -> (r: Vec<(String, String)>)
    ensures
        r@.len() == 1,
        r@[0].0@ == "Access-Control-Allow-Origin"@,
        r@[0].1@ == "*"@,
{
    let mut r: Vec<(String, String)> = Vec::new();
    r.push(("Access-Control-Allow-Origin".to_owned(), "*".to_owned()));
    r
}

/// 200 with the table names as a JSON array, exactly as listed.
pub fn list_tables_response(names: Vec<String>) -> (r: ApiResponse)
    ensures
        r.status == 200,
        json_cors_headers(r.headers@),
        r.body matches ResponseBody::TablesJson(ns) && ns@ == names@,
{
    ApiResponse { status: 200, headers: json_headers(), body: ResponseBody::TablesJson(names) }
}

/// Row-for-row, column-for-column translation of one scanned item.
pub open spec fn row_translated(src: Vec<(String, AttrValue)>, dst: Vec<(String, JsonScalar)>) -> bool {
    &&& dst@.len() == src@.len()
    &&& forall|j: int|
        0 <= j < src@.len() ==> (#[trigger] dst@[j]).0@ == src@[j].0@ && dst@[j].1@
            == spec_translate(src@[j].1@)
}

/// 200 with the scanned rows translated to JSON mappings, in scan order.
pub fn sample_response(rows: &Vec<Vec<(String, AttrValue)>>) -> (r: ApiResponse)
    ensures
        r.status == 200,
        json_cors_headers(r.headers@),
        r.body matches ResponseBody::SamplesJson(ss) && ss@.len() == rows@.len() && (forall|i: int|
            0 <= i < rows@.len() ==> row_translated(rows@[i], #[trigger] ss@[i])),
{
    let mut ss: Vec<Vec<(String, JsonScalar)>> = Vec::new();
    let mut i: usize = 0;
    while i < rows.len()
        invariant
            i <= rows@.len(),
            ss@.len() == i,
            forall|j: int| 0 <= j < i ==> row_translated(rows@[j], #[trigger] ss@[j]),
        decreases rows@.len() - i,
    {
        let t = translate_item(&rows[i]);
        ss.push(t);
        i += 1;
    }
    ApiResponse { status: 200, headers: json_headers(), body: ResponseBody::SamplesJson(ss) }
}

/// 200 with the assembled per-table listing.
pub fn table_info_response(info: TableInfo) -> (r: ApiResponse)
    ensures
        r.status == 200,
        json_cors_headers(r.headers@),
        r.body matches ResponseBody::TableInfoJson(ti) && ti == info,
{
    ApiResponse { status: 200, headers: json_headers(), body: ResponseBody::TableInfoJson(info) }
}

/// 200 with the fixed `{"success": true}` acknowledgement.
pub fn update_success_response() -> (r: ApiResponse)
    ensures
        r.status == 200,
        json_cors_headers(r.headers@),
        r.body is SuccessJson,
{
    ApiResponse { status: 200, headers: json_headers(), body: ResponseBody::SuccessJson }
}

/// 400 with the fixed invalid-path text, for a PUT whose path does not
/// split into exactly two segments.
pub fn invalid_path_response() -> (r: ApiResponse)
    ensures
        r.status == 400,
        r.headers@.len() == 1,
        r.headers@[0].0@ == "Access-Control-Allow-Origin"@,
        r.headers@[0].1@ == "*"@,
        r.body matches ResponseBody::Text(t) && t@ == "Invalid path format"@,
{
    ApiResponse {
        status: 400,
        headers: origin_only_headers(),
        body: ResponseBody::Text("Invalid path format".to_owned()),
    }
}

/// 204 with no body and the three CORS preflight headers.
pub fn preflight_response() -> (r: ApiResponse)
    ensures
        r.status == 204,
        r.headers@.len() == 3,
        r.headers@[0].0@ == "Access-Control-Allow-Origin"@,
        r.headers@[0].1@ == "*"@,
        r.headers@[1].0@ == "Access-Control-Allow-Methods"@,
        r.headers@[1].1@ == "GET, POST, PUT, OPTIONS"@,
        r.headers@[2].0@ == "Access-Control-Allow-Headers"@,
        r.headers@[2].1@ == "Content-Type"@,
        r.body matches ResponseBody::Text(t) && t@.len() == 0,
{
    let mut hs: Vec<(String, String)> = Vec::new();
    hs.push(("Access-Control-Allow-Origin".to_owned(), "*".to_owned()));
    hs.push(("Access-Control-Allow-Methods".to_owned(), "GET, POST, PUT, OPTIONS".to_owned()));
    hs.push(("Access-Control-Allow-Headers".to_owned(), "Content-Type".to_owned()));
    ApiResponse { status: 204, headers: hs, body: ResponseBody::Text(String::new()) }
}

/// 404 with the fixed not-found text, for any unmatched method or path.
pub fn not_found_response() -> (r: ApiResponse)
    ensures
        r.status == 404,
        r.headers@.len() == 1,
        r.headers@[0].0@ == "Access-Control-Allow-Origin"@,
        r.headers@[0].1@ == "*"@,
        r.body matches ResponseBody::Text(t) && t@ == "Not Found"@,
{
    ApiResponse {
        status: 404,
        headers: origin_only_headers(),
        body: ResponseBody::Text("Not Found".to_owned()),
    }
}

} // verus!
