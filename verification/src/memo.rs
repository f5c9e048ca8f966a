//! Memo records: human-authored descriptions attached to one
//! (table name, attribute name) pair, persisted in a fixed metadata table.
//!
//! `MemoStore` models that table: at most one record per key pair, and a
//! write fully overwrites the previous record. `memo_key` and `memo_item`
//! build the key and the full item a write sends; `extract_description`
//! reads a point-lookup result back.

use vstd::prelude::*;
use crate::values::AttrValue;
use crate::values::AttrValueModel;

verus! {

/// Name of the fixed metadata table that holds memo records.
pub fn meta_table_name() -> (r: String)
    ensures
        r@ == "dynamodb-admin-meta"@,
{
    "dynamodb-admin-meta".to_owned()
}

pub struct MemoRecord {
    pub table_name: String,
    pub attribute_name: String,
    pub description: String,
    pub last_seen_at: String,
}

pub open spec fn key_match(r: MemoRecord, t: Seq<char>, a: Seq<char>) -> bool {
    r.table_name@ == t && r.attribute_name@ == a
}

/// The (description, timestamp) of the first record keyed by `(t, a)`.
pub open spec fn spec_lookup(rs: Seq<MemoRecord>, t: Seq<char>, a: Seq<char>) -> Option<
    (Seq<char>, Seq<char>),
>
    decreases rs.len(),
{
    if rs.len() == 0 {
        None
    } else if key_match(rs[0], t, a) {
        Some((rs[0].description@, rs[0].last_seen_at@))
    } else {
        spec_lookup(rs.drop_first(), t, a)
    }
}

proof fn lemma_lookup_first_match(rs: Seq<MemoRecord>, t: Seq<char>, a: Seq<char>, i: int)
    requires
        0 <= i < rs.len(),
        forall|j: int| 0 <= j < i ==> !key_match(rs[j], t, a),
        key_match(rs[i], t, a),
    ensures
        spec_lookup(rs, t, a) == Some((rs[i].description@, rs[i].last_seen_at@)),
    decreases i,
{
    if i > 0 {
        lemma_lookup_first_match(rs.drop_first(), t, a, i - 1);
    }
}

proof fn lemma_lookup_none(rs: Seq<MemoRecord>, t: Seq<char>, a: Seq<char>)
    requires
        forall|j: int| 0 <= j < rs.len() ==> !key_match(rs[j], t, a),
    ensures
        spec_lookup(rs, t, a) == None::<(Seq<char>, Seq<char>)>,
    decreases rs.len(),
{
    if rs.len() > 0 {
        lemma_lookup_none(rs.drop_first(), t, a);
    }
}

proof fn lemma_lookup_update_same_key(
    rs: Seq<MemoRecord>,
    i: int,
    rec: MemoRecord,
    t2: Seq<char>,
    a2: Seq<char>,
)
    requires
        0 <= i < rs.len(),
        rec.table_name@ == rs[i].table_name@,
        rec.attribute_name@ == rs[i].attribute_name@,
        !key_match(rec, t2, a2),
    ensures
        spec_lookup(rs.update(i, rec), t2, a2) == spec_lookup(rs, t2, a2),
    decreases i,
{
    let upd = rs.update(i, rec);
    if i == 0 {
        assert(!key_match(upd[0], t2, a2));
        assert(!key_match(rs[0], t2, a2));
        assert(upd.drop_first() =~= rs.drop_first());
    } else {
        assert(upd[0] == rs[0]);
        if !key_match(rs[0], t2, a2) {
            lemma_lookup_update_same_key(rs.drop_first(), i - 1, rec, t2, a2);
            assert(upd.drop_first() =~= rs.drop_first().update(i - 1, rec));
        }
    }
}

proof fn lemma_lookup_push(rs: Seq<MemoRecord>, rec: MemoRecord, t2: Seq<char>, a2: Seq<char>)
    ensures
        spec_lookup(rs.push(rec), t2, a2) == if spec_lookup(rs, t2, a2) is Some {
            spec_lookup(rs, t2, a2)
        } else if key_match(rec, t2, a2) {
            Some((rec.description@, rec.last_seen_at@))
        } else {
            None::<(Seq<char>, Seq<char>)>
        },
    decreases rs.len(),
{
    let p = rs.push(rec);
    if rs.len() == 0 {
        assert(p[0] == rec);
        assert(p.drop_first() =~= Seq::<MemoRecord>::empty());
        assert(spec_lookup(p.drop_first(), t2, a2) is None);
        assert(spec_lookup(rs, t2, a2) is None);
        if key_match(rec, t2, a2) {
            assert(spec_lookup(p, t2, a2) == Some((rec.description@, rec.last_seen_at@)));
        } else {
            assert(spec_lookup(p, t2, a2) == spec_lookup(p.drop_first(), t2, a2));
        }
    } else {
        assert(p[0] == rs[0]);
        if key_match(rs[0], t2, a2) {
            assert(spec_lookup(p, t2, a2) == Some((p[0].description@, p[0].last_seen_at@)));
            assert(spec_lookup(rs, t2, a2) == Some((rs[0].description@, rs[0].last_seen_at@)));
        } else {
            lemma_lookup_push(rs.drop_first(), rec, t2, a2);
            assert(p.drop_first() =~= rs.drop_first().push(rec));
            assert(spec_lookup(p, t2, a2) == spec_lookup(p.drop_first(), t2, a2));
            assert(spec_lookup(rs, t2, a2) == spec_lookup(rs.drop_first(), t2, a2));
        }
    }
}

/// What one overwrite of the memo for `(t, a)` does to the stored records:
/// that pair now holds exactly the new description and timestamp, and every
/// other pair is untouched.
pub open spec fn put_effect(
    old_rs: Seq<MemoRecord>,
    new_rs: Seq<MemoRecord>,
    t: Seq<char>,
    a: Seq<char>,
    d: Seq<char>,
    ts: Seq<char>,
) -> bool {
    &&& spec_lookup(new_rs, t, a) == Some((d, ts))
    &&& forall|t2: Seq<char>, a2: Seq<char>|
        !(t2 == t && a2 == a) ==> #[trigger] spec_lookup(new_rs, t2, a2) == spec_lookup(
            old_rs,
            t2,
            a2,
        )
}

/// In-memory model of the metadata table: at most one record per key pair,
/// writes overwrite, reads return the stored description and timestamp.
pub struct MemoStore {
    pub records: Vec<MemoRecord>,
}

impl MemoStore {
    /// At most one memo record per (table name, attribute name) pair.
    pub open spec fn wf(&self) -> bool {
        forall|i: int, j: int|
            #![trigger self.records@[i], self.records@[j]]
            0 <= i < j < self.records@.len() ==> !key_match(
                self.records@[i],
                self.records@[j].table_name@,
                self.records@[j].attribute_name@,
            )
    }

    pub fn new() -> (r: MemoStore)
        ensures
            r.wf(),
            r.records@.len() == 0,
    {
        MemoStore { records: Vec::new() }
    }

    /// The stored description for `(t, a)`, absent when no memo was ever
    /// written for that pair; absence is a normal state, not an error.
    pub fn get(&self, t: &str, a: &str) -> (r: Option<String>)
        ensures
            r is Some <==> spec_lookup(self.records@, t@, a@) is Some,
            r matches Some(d) ==> spec_lookup(self.records@, t@, a@) matches Some(p) && p.0 == d@,
    {
        let n = self.records.len();
        let mut i: usize = 0;
        while i < n
            invariant
                i <= n,
                n == self.records@.len(),
                forall|j: int| 0 <= j < i ==> !key_match(self.records@[j], t@, a@),
            decreases n - i,
        {
            let rec = &self.records[i];
            if crate::strings::str_eq(rec.table_name.as_str(), t) && crate::strings::str_eq(
                rec.attribute_name.as_str(),
                a,
            ) {
                proof {
                    lemma_lookup_first_match(self.records@, t@, a@, i as int);
                }
                return Some(rec.description.clone());
            }
            i += 1;
        }
        proof {
            lemma_lookup_none(self.records@, t@, a@);
        }
        None
    }

    /// Overwrites the memo for `(t, a)` with `d`, stamped `ts`; the last
    /// writer wins, and no other pair changes.
    pub fn put(&mut self, t: &str, a: &str, d: &str, ts: &str)
        requires
            old(self).wf(),
        ensures
            final(self).wf(),
            put_effect(old(self).records@, final(self).records@, t@, a@, d@, ts@),
    {
        let rec = MemoRecord {
            table_name: t.to_owned(),
            attribute_name: a.to_owned(),
            description: d.to_owned(),
            last_seen_at: ts.to_owned(),
        };
        let n = self.records.len();
        let mut i: usize = 0;
        while i < n
            invariant
                i <= n,
                n == self.records@.len(),
                old(self).wf(),
                self.records@ == old(self).records@,
                rec.table_name@ == t@,
                rec.attribute_name@ == a@,
                rec.description@ == d@,
                rec.last_seen_at@ == ts@,
                forall|j: int| 0 <= j < i ==> !key_match(self.records@[j], t@, a@),
            decreases n - i,
        {
            let cur = &self.records[i];
            if crate::strings::str_eq(cur.table_name.as_str(), t) && crate::strings::str_eq(
                cur.attribute_name.as_str(),
                a,
            ) {
                let ghost old_rs = self.records@;
                self.records.remove(i);
                self.records.insert(i, rec);
                proof {
                    assert(self.records@ =~= old_rs.update(i as int, rec));
                    assert(rec.table_name@ == t@ && rec.attribute_name@ == a@);
                    assert(self.records@[i as int] == rec);
                    assert(key_match(self.records@[i as int], t@, a@));
                    assert forall|k: int|
                        0 <= k < self.records@.len() implies (#[trigger] self.records@[k]).table_name@
                        == old_rs[k].table_name@ && self.records@[k].attribute_name@
                        == old_rs[k].attribute_name@ by {
                        if k == i as int {
                            assert(old_rs[k].table_name@ == t@ && old_rs[k].attribute_name@ == a@);
                        } else {
                            assert(self.records@[k] == old_rs[k]);
                        }
                    }
                    assert forall|j: int| 0 <= j < i implies !key_match(
                        #[trigger] self.records@[j],
                        t@,
                        a@,
                    ) by {
                        assert(self.records@[j] == old_rs[j]);
                    }
                    lemma_lookup_first_match(self.records@, t@, a@, i as int);
                    assert forall|t2: Seq<char>, a2: Seq<char>| !(t2 == t@ && a2 == a@) implies #[trigger] spec_lookup(
                        self.records@,
                        t2,
                        a2,
                    ) == spec_lookup(old_rs, t2, a2) by {
                        lemma_lookup_update_same_key(old_rs, i as int, rec, t2, a2);
                    }
                    assert(old(self).wf());
                    assert forall|x: int, y: int|
                        #![trigger self.records@[x], self.records@[y]]
                        0 <= x < y < self.records@.len() implies !key_match(
                        self.records@[x],
                        self.records@[y].table_name@,
                        self.records@[y].attribute_name@,
                    ) by {
                        assert(!key_match(old_rs[x], old_rs[y].table_name@, old_rs[y].attribute_name@));
                        assert(self.records@[x].table_name@ == old_rs[x].table_name@);
                        assert(self.records@[y].table_name@ == old_rs[y].table_name@);
                    }
                }
                return ;
            }
            i += 1;
        }
        let ghost old_rs = self.records@;
        self.records.push(rec);
        proof {
            lemma_lookup_none(old_rs, t@, a@);
            lemma_lookup_push(old_rs, rec, t@, a@);
            assert forall|t2: Seq<char>, a2: Seq<char>| !(t2 == t@ && a2 == a@) implies #[trigger] spec_lookup(
                self.records@,
                t2,
                a2,
            ) == spec_lookup(old_rs, t2, a2) by {
                lemma_lookup_push(old_rs, rec, t2, a2);
            }
            assert forall|x: int, y: int|
                #![trigger self.records@[x], self.records@[y]]
                0 <= x < y < self.records@.len() implies !key_match(
                self.records@[x],
                self.records@[y].table_name@,
                self.records@[y].attribute_name@,
            ) by {
                if y < old_rs.len() {
                    assert(!key_match(old_rs[x], old_rs[y].table_name@, old_rs[y].attribute_name@));
                } else {
                    assert(self.records@[y] == rec);
                    assert(!key_match(old_rs[x], t@, a@));
                }
            }
        }
    }
}

/// Law: storing a memo and reading the same pair back yields exactly the
/// description that was written.
pub proof fn lemma_memo_round_trip(
    old_rs: Seq<MemoRecord>,
    new_rs: Seq<MemoRecord>,
    t: Seq<char>,
    a: Seq<char>,
    d: Seq<char>,
    ts: Seq<char>,
)
    requires
        put_effect(old_rs, new_rs, t, a, d, ts),
    ensures
        spec_lookup(new_rs, t, a) matches Some(p) && p.0 == d,
{
}

/// Law: overwriting a memo twice with the same description leaves the
/// stored description unchanged, whatever the two timestamps were.
pub proof fn lemma_memo_update_idempotent(
    rs0: Seq<MemoRecord>,
    rs1: Seq<MemoRecord>,
    rs2: Seq<MemoRecord>,
    t: Seq<char>,
    a: Seq<char>,
    d: Seq<char>,
    ts1: Seq<char>,
    ts2: Seq<char>,
)
    requires
        put_effect(rs0, rs1, t, a, d, ts1),
        put_effect(rs1, rs2, t, a, d, ts2),
    ensures
        spec_lookup(rs2, t, a) matches Some(p2) && spec_lookup(rs1, t, a) matches Some(p1)
            && p1.0 == p2.0,
{
}

/// Law: in a fresh store no pair has a memo, and a write to one pair
/// leaves every other pair without one; a missing memo reads back as an
/// absent value, not as an empty string.
pub proof fn lemma_memo_missing(
    rs0: Seq<MemoRecord>,
    rs1: Seq<MemoRecord>,
    t: Seq<char>,
    a: Seq<char>,
    d: Seq<char>,
    ts: Seq<char>,
    t2: Seq<char>,
    a2: Seq<char>,
)
    requires
        put_effect(rs0, rs1, t, a, d, ts),
        !(t2 == t && a2 == a),
        spec_lookup(rs0, t2, a2) is None,
    ensures
        spec_lookup(rs1, t2, a2) is None,
        spec_lookup(Seq::<MemoRecord>::empty(), t2, a2) is None,
{
}

/// The two-part key of the memo record for `(table_name, attribute_name)`.
pub fn memo_key(table_name: &str, attribute_name: &str) -> (r: Vec<(String, AttrValue)>)
    ensures
        r@.len() == 2,
        r@[0].0@ == "table_name"@,
        r@[0].1@ == AttrValueModel::S(table_name@),
        r@[1].0@ == "attribute_name"@,
        r@[1].1@ == AttrValueModel::S(attribute_name@),
{
    let mut r: Vec<(String, AttrValue)> = Vec::new();
    r.push(("table_name".to_owned(), AttrValue::S(table_name.to_owned())));
    r.push(("attribute_name".to_owned(), AttrValue::S(attribute_name.to_owned())));
    r
}

/// The full memo item a write stores: both key parts, the description and
/// the timestamp, all as string-tagged values.
pub fn memo_item(table_name: &str, attribute_name: &str, description: &str, seen_at: &str) -> (r:
    Vec<(String, AttrValue)>)
    ensures
        r@.len() == 4,
        r@[0].0@ == "table_name"@,
        r@[0].1@ == AttrValueModel::S(table_name@),
        r@[1].0@ == "attribute_name"@,
        r@[1].1@ == AttrValueModel::S(attribute_name@),
        r@[2].0@ == "description"@,
        r@[2].1@ == AttrValueModel::S(description@),
        r@[3].0@ == "last_seen_at"@,
        r@[3].1@ == AttrValueModel::S(seen_at@),
{
    let mut r = memo_key(table_name, attribute_name);
    r.push(("description".to_owned(), AttrValue::S(description.to_owned())));
    r.push(("last_seen_at".to_owned(), AttrValue::S(seen_at.to_owned())));
    r
}

/// First value stored under the key `"description"` in `pairs`, as the
/// point lookup hands the item back.
pub open spec fn spec_first_description(pairs: Seq<(String, AttrValue)>) -> Option<Seq<char>>
    decreases pairs.len(),
{
    if pairs.len() == 0 {
        None
    } else if pairs[0].0@ == "description"@ {
        match pairs[0].1@ {
            AttrValueModel::S(s) => Some(s),
            _ => None,
        }
    } else {
        spec_first_description(pairs.drop_first())
    }
}

/// Reads the memo description out of a point-lookup result: the value
/// under `"description"`, and only when it is string-tagged. A missing
/// item or field is an absent description, never an error.
pub fn extract_description(item: Option<&Vec<(String, AttrValue)>>) -> (r: Option<String>)
    ensures
        match item {
            Some(pairs) => {
                &&& (r is Some <==> spec_first_description(pairs@) is Some)
                &&& (r matches Some(d) ==> spec_first_description(pairs@) == Some(d@))
            },
            None => r is None,
        },
{
    let pairs = match item {
        Some(p) => p,
        None => {
            return None;
        },
    };
    let n = pairs.len();
    proof {
        assert(pairs@.subrange(0, n as int) =~= pairs@);
    }
    let mut i: usize = 0;
    while i < n
        invariant
            i <= n,
            n == pairs@.len(),
            item == Some(pairs),
            spec_first_description(pairs@) == spec_first_description(
                pairs@.subrange(i as int, n as int),
            ),
        decreases n - i,
    {
        let (k, v) = &pairs[i];
        let ghost pre = pairs@.subrange(i as int, n as int);
        proof {
            assert(pre[0] == pairs@[i as int]);
            assert(pre.drop_first() =~= pairs@.subrange(i + 1, n as int));
        }
        if crate::strings::str_eq(k.as_str(), "description") {
            match v {
                AttrValue::S(s) => {
                    return Some(s.clone());
                },
                _ => {
                    return None;
                },
            }
        }
        i += 1;
    }
    proof {
        assert(pairs@.subrange(n as int, n as int).len() == 0);
        assert(spec_first_description(pairs@.subrange(n as int, n as int)) is None);
    }
    None
}

/// Relies on `chrono::Utc::now().to_rfc3339()`: the current instant,
/// formatted as an RFC 3339 timestamp. Nothing is assumed of the value;
/// callers only record it.
#[verifier::external_body]
pub(crate) fn now_rfc3339() -> (r: String) {
    chrono::Utc::now().to_rfc3339()
}

/// The memo item for one update, stamped with the current time: the
/// description is the one given; the timestamp is whatever the clock said.
pub fn fresh_memo_item(table_name: &str, attribute_name: &str, description: &str) -> (r: Vec<
    (String, AttrValue),
>)
    ensures
        r@.len() == 4,
        r@[0].0@ == "table_name"@,
        r@[0].1@ == AttrValueModel::S(table_name@),
        r@[1].0@ == "attribute_name"@,
        r@[1].1@ == AttrValueModel::S(attribute_name@),
        r@[2].0@ == "description"@,
        r@[2].1@ == AttrValueModel::S(description@),
        r@[3].0@ == "last_seen_at"@,
        r@[3].1@ is S,
{
    let ts = now_rfc3339();
    memo_item(table_name, attribute_name, description, ts.as_str())
}

/// The `description` field a JSON object body carries, when the body
/// parses and the field is a string; what `serde_json` makes of a body
/// depends on its text alone.
pub uninterp spec fn parsed_description(body: Seq<char>) -> Option<Seq<char>>;

/// Relies on `serde_json::from_str::<serde_json::Value>` and
/// `serde_json::Value::get`: reads the `description` field out of a JSON
/// object body, and only when that field holds a string.
#[verifier::external_body]
fn parse_description_json(s: &str) -> (r: Option<String>)
    ensures
        r is Some <==> parsed_description(s@) is Some,
        r matches Some(d) ==> parsed_description(s@) == Some(d@),
{
    match serde_json::from_str::<serde_json::Value>(s) {
        Ok(v) => match v.get("description") {
            Some(serde_json::Value::String(d)) => Some(d.clone()),
            _ => None,
        },
        _ => None,
    }
}

/// Parses a PUT body and builds the memo item one update stores: `Some`
/// exactly when the body is a JSON object whose `description` is a
/// string; the item then carries that description under the given key
/// pair, stamped with the current time.
pub fn memo_item_from_body(table_name: &str, attribute_name: &str, body: &str) -> (r: Option<
    Vec<(String, AttrValue)>,
>)
    ensures
        r is Some <==> parsed_description(body@) is Some,
        r matches Some(item) ==> ({
            &&& item@.len() == 4
            &&& item@[0].0@ == "table_name"@
            &&& item@[0].1@ == AttrValueModel::S(table_name@)
            &&& item@[1].0@ == "attribute_name"@
            &&& item@[1].1@ == AttrValueModel::S(attribute_name@)
            &&& item@[2].0@ == "description"@
            &&& parsed_description(body@) matches Some(d) && item@[2].1@ == AttrValueModel::S(d)
            &&& item@[3].0@ == "last_seen_at"@
            &&& item@[3].1@ is S
        }),
{
    match parse_description_json(body) {
        Some(d) => Some(fresh_memo_item(table_name, attribute_name, d.as_str())),
        None => None,
    }
}

/// Law: the item built for an update reads back as exactly the
/// description that was written (the put/get round trip at item level).
pub proof fn lemma_item_round_trip(d: Seq<char>, pairs: Seq<(String, AttrValue)>)
    requires
        pairs.len() == 4,
        pairs[0].0@ == "table_name"@,
        pairs[1].0@ == "attribute_name"@,
        pairs[2].0@ == "description"@,
        pairs[2].1@ == AttrValueModel::S(d),
        pairs[3].0@ == "last_seen_at"@,
    ensures
        spec_first_description(pairs) == Some(d),
{
    reveal_strlit("table_name");
    reveal_strlit("attribute_name");
    reveal_strlit("description");
    assert("table_name"@.len() == 10);
    assert("attribute_name"@.len() == 14);
    assert("description"@.len() == 11);
    assert(pairs[0].0@ != "description"@);
    assert(pairs[1].0@ != "description"@);
    assert(pairs.drop_first()[0] == pairs[1]);
    assert(pairs.drop_first().drop_first()[0] == pairs[2]);
    assert(spec_first_description(pairs) == spec_first_description(pairs.drop_first()));
    assert(spec_first_description(pairs.drop_first()) == spec_first_description(
        pairs.drop_first().drop_first(),
    ));
    assert(pairs.drop_first().drop_first()[0].1@ == AttrValueModel::S(d));
    assert(spec_first_description(pairs.drop_first().drop_first()) == Some(d));
}

} // verus!
