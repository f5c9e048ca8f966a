//! Shaping a table's schema into the attribute listing the service
//! returns: one entry per attribute definition, in schema order, each
//! carrying a type hint, the stored memo description (when there is one)
//! and an observation timestamp taken at read time.

use vstd::prelude::*;

verus! {

/// How many rows one sample scan asks for; only the first page is read
/// and no pagination token is followed.
pub fn sample_scan_limit() -> (r: i32)
    ensures
        r == 5,
{
    5
}

/// The scalar type tag of an attribute definition: string, number,
/// binary, or anything else the schema may carry.
#[derive(Clone, Copy)]
pub enum ScalarKind {
    S,
    N,
    B,
    Other,
}

/// The type hint shown for a scalar kind; binary and unrecognized tags
/// both read as `unknown` except the three mapped explicitly.
pub open spec fn spec_type_hint(k: ScalarKind) -> Seq<char> {
    match k {
        ScalarKind::S => "string"@,
        ScalarKind::N => "number"@,
        ScalarKind::B => "binary"@,
        ScalarKind::Other => "unknown"@,
    }
}

pub fn type_hint_for(k: ScalarKind) -> (r: String)
    ensures
        r@ == spec_type_hint(k),
{
    match k {
        ScalarKind::S => "string".to_owned(),
        ScalarKind::N => "number".to_owned(),
        ScalarKind::B => "binary".to_owned(),
        ScalarKind::Other => "unknown".to_owned(),
    }
}

pub open spec fn opt_view(o: Option<String>) -> Option<Seq<char>> {
    match o {
        Some(s) => Some(s@),
        None => None,
    }
}

pub fn clone_opt_string(o: &Option<String>) -> (r: Option<String>)
    ensures
        opt_view(r) == opt_view(*o),
{
    match o {
        Some(s) => Some(s.clone()),
        None => None,
    }
}

/// One row of the attribute listing.
pub struct AttributeInfo {
    pub attribute_name: String,
    pub type_hint: String,
    pub description: Option<String>,
    pub last_seen_at: Option<String>,
}

pub fn build_attribute_info(
    name: &str,
    kind: ScalarKind,
    description: Option<String>,
    seen_at: String,
) -> (r: AttributeInfo)
    ensures
        r.attribute_name@ == name@,
        r.type_hint@ == spec_type_hint(kind),
        opt_view(r.description) == opt_view(description),
        opt_view(r.last_seen_at) == Some(seen_at@),
{
    AttributeInfo {
        attribute_name: name.to_owned(),
        type_hint: type_hint_for(kind),
        description,
        last_seen_at: Some(seen_at),
    }
}

/// One listing entry per schema attribute definition, in schema order:
/// the name carried over, the type hint mapped from the scalar kind, the
/// memo description as looked up, and a fresh observation timestamp —
/// always present, recomputed at every read, never the stored one.
pub fn assemble_attributes(defs: &Vec<(String, ScalarKind)>, memos: &Vec<Option<String>>) -> (r:
    Vec<AttributeInfo>)
    requires
        defs@.len() == memos@.len(),
    ensures
        r@.len() == defs@.len(),
        forall|i: int| 0 <= i < defs@.len() ==> (#[trigger] r@[i]).attribute_name@ == defs@[i].0@,
        forall|i: int|
            0 <= i < defs@.len() ==> (#[trigger] r@[i]).type_hint@ == spec_type_hint(defs@[i].1),
        forall|i: int|
            0 <= i < defs@.len() ==> opt_view((#[trigger] r@[i]).description) == opt_view(
                memos@[i],
            ),
        forall|i: int| 0 <= i < defs@.len() ==> (#[trigger] r@[i]).last_seen_at is Some,
{
    let mut r: Vec<AttributeInfo> = Vec::new();
    let mut i: usize = 0;
    while i < defs.len()
        invariant
            i <= defs@.len(),
            defs@.len() == memos@.len(),
            r@.len() == i,
            forall|j: int| 0 <= j < i ==> (#[trigger] r@[j]).attribute_name@ == defs@[j].0@,
            forall|j: int|
                0 <= j < i ==> (#[trigger] r@[j]).type_hint@ == spec_type_hint(defs@[j].1),
            forall|j: int|
                0 <= j < i ==> opt_view((#[trigger] r@[j]).description) == opt_view(memos@[j]),
            forall|j: int| 0 <= j < i ==> (#[trigger] r@[j]).last_seen_at is Some,
        decreases defs@.len() - i,
    {
        let (nm, kind) = &defs[i];
        let memo = clone_opt_string(&memos[i]);
        let ts = crate::memo::now_rfc3339();
        let info = build_attribute_info(nm.as_str(), *kind, memo, ts);
        r.push(info);
        i += 1;
    }
    r
}

/// The full per-table listing: the table's name and its attribute rows.
pub struct TableInfo {
    pub table_name: String,
    pub attributes: Vec<AttributeInfo>,
}

pub fn make_table_info(table_name: &str, attributes: Vec<AttributeInfo>) -> (r: TableInfo)
    ensures
        r.table_name@ == table_name@,
        r.attributes == attributes,
{
    TableInfo { table_name: table_name.to_owned(), attributes }
}

/// Law: once a memo for a pair is stored, a listing row built from a
/// fresh lookup of that pair shows exactly the description that was
/// written — the write, the point read and the row assembly agree.
pub proof fn lemma_stored_description_is_listed(
    rs0: Seq<crate::memo::MemoRecord>,
    rs1: Seq<crate::memo::MemoRecord>,
    t: Seq<char>,
    a: Seq<char>,
    d: Seq<char>,
    ts: Seq<char>,
    memo: Option<String>,
    row: AttributeInfo,
)
    requires
        crate::memo::put_effect(rs0, rs1, t, a, d, ts),
        opt_view(memo) == match crate::memo::spec_lookup(rs1, t, a) {
            Some(p) => Some(p.0),
            None => None::<Seq<char>>,
        },
        opt_view(row.description) == opt_view(memo),
    ensures
        opt_view(row.description) == Some(d),
{
}

} // verus!
