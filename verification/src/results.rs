//! SPARQL result sets (`application/sparql-results+json`), read into the
//! terms a namespace documents.

use vstd::prelude::*;
use vstd::string::*;
use crate::docs::{
    RowView, SparqlRow, Term, TermView, distinct_iris, row_views, term_views, terms_from_rows,
    terms_of_rows,
};
use crate::error::{NameError, Refusal, arg_view};
use crate::text::same;

verus! {

/// A JSON value, node for node.
#[derive(Debug)]
pub enum Json {
    /// `null`.
    Null,
    /// `true` or `false`.
    Bool(bool),
    /// A number, as its reader prints it.
    Number(String),
    /// A string.
    Str(String),
    /// An array's items, in order.
    Array(Vec<Json>),
    /// An object's members, in the reader's order; no name occurs twice.
    Object(Vec<(String, Json)>),
}

#[verifier::external_type_specification]
#[verifier::external_body]
pub struct ExJsonValue(serde_json::Value);

/// What `serde_json` reads from `bytes`: the document, or the text of the
/// error it reports. It depends on `bytes` alone.
pub uninterp spec fn json_reading(bytes: Seq<u8>) -> Result<Json, Seq<char>>;

/// A reading, with its error as characters.
pub open spec fn reading_view(r: Result<Json, String>) -> Result<Json, Seq<char>> {
    match r {
        Ok(doc) => Ok(doc),
        Err(e) => Err(e@),
    }
}

/// Calls `serde_json::from_slice` for a `serde_json::Value` and copies the
/// value into a [`Json`]; a refusal comes back as the error's displayed
/// text. The contract names the outcome and says nothing more of it: which
/// byte strings are JSON is `serde_json`'s grammar.
#[verifier::external_body]
pub(crate) fn parse_json(bytes: &[u8]) -> (r: Result<Json, String>)
    ensures
        reading_view(r) == json_reading(bytes@),
{
    match serde_json::from_slice::<serde_json::Value>(bytes) {
        Ok(v) => Ok(json_of(&v)),
        Err(e) => Err(e.to_string()),
    }
}

/// Copies a `serde_json::Value` into a [`Json`], one node for each node.
/// Only [`parse_json`] calls it, and it claims nothing.
#[verifier::external_body]
fn json_of(v: &serde_json::Value) -> Json {
    match v {
        serde_json::Value::Null => Json::Null,
        serde_json::Value::Bool(b) => Json::Bool(*b),
        serde_json::Value::Number(n) => Json::Number(n.to_string()),
        serde_json::Value::String(s) => Json::Str(s.clone()),
        serde_json::Value::Array(a) => Json::Array(a.iter().map(json_of).collect()),
        serde_json::Value::Object(m) => Json::Object(
            m.iter().map(|(k, x)| (k.clone(), json_of(x))).collect(),
        ),
    }
}

// --- reading a document -------------------------------------------------------

/// The value of the first member named `key`.
pub open spec fn member_among(members: Seq<(String, Json)>, key: Seq<char>) -> Option<Json>
    decreases members.len(),
{
    if members.len() == 0 {
        None
    } else if members[0].0@ == key {
        Some(members[0].1)
    } else {
        member_among(members.drop_first(), key)
    }
}

/// The member `key` of an object; nothing of anything else.
pub open spec fn member(j: Json, key: Seq<char>) -> Option<Json> {
    match j {
        Json::Object(members) => member_among(members@, key),
        _ => None,
    }
}

/// The value a result row binds to a variable: the string under `value` in
/// the row's member for it.
pub open spec fn bound_text(row: Json, name: Seq<char>) -> Option<Seq<char>> {
    match member(row, name) {
        Some(binding) => match member(binding, "value"@) {
            Some(Json::Str(s)) => Some(s@),
            _ => None,
        },
        None => None,
    }
}

/// A result row, as the term query's variables.
pub open spec fn row_of(b: Json) -> RowView {
    RowView {
        term: bound_text(b, "term"@),
        comment: bound_text(b, "comment"@),
        parent: bound_text(b, "parent"@),
        domain: bound_text(b, "domain"@),
        range: bound_text(b, "range"@),
    }
}

/// The rows of a result set: the array at `results.bindings`, if there is one.
pub open spec fn result_rows(doc: Json) -> Option<Seq<RowView>> {
    match member(doc, "results"@) {
        Some(results) => match member(results, "bindings"@) {
            Some(Json::Array(list)) => Some(list@.map_values(|b: Json| row_of(b))),
            _ => None,
        },
        None => None,
    }
}

/// The terms a reading documents, or why there are none: an unreadable
/// document, or one without bindings, is the face's failure.
pub open spec fn results_outcome(reading: Result<Json, Seq<char>>) -> Result<
    Seq<TermView>,
    Refusal,
> {
    match reading {
        Err(e) => Err(Refusal::Endpoint("name: unreadable SPARQL results: "@ + e)),
        Ok(doc) => match result_rows(doc) {
            None => Err(Refusal::Endpoint("name: SPARQL results had no bindings"@)),
            Some(rows) => Ok(terms_of_rows(rows)),
        },
    }
}

/// A list of terms, or a refusal, as characters.
pub open spec fn terms_outcome(r: Result<Vec<Term>, NameError>) -> Result<Seq<TermView>, Refusal> {
    match r {
        Ok(ts) => Ok(term_views(ts@)),
        Err(e) => Err(e@),
    }
}

/// The member `key` of `j`, if `j` is an object that has one.
pub fn member_of<'a>(j: &'a Json, key: &str) -> (r: Option<&'a Json>)
    ensures
        match r {
            Some(v) => member(*j, key@) == Some(*v),
            None => member(*j, key@) is None,
        },
{
    match j {
        Json::Object(members) => {
            let mut i: usize = 0;
            assert(members@.skip(0) =~= members@);
            while i < members.len()
                invariant
                    i <= members@.len(),
                    member(*j, key@) == member_among(members@, key@),
                    member_among(members@, key@) == member_among(members@.skip(i as int), key@),
                decreases members@.len() - i,
            {
                assert(members@.skip(i as int)[0] == members@[i as int]);
                let name = members[i].0.as_str();
                if same(name, key) {
                    assert(members@.skip(i as int).len() > 0);
                    assert(members@[i as int].0@ == key@);
                    return Some(&members[i].1);
                }
                assert(members@.skip(i as int).drop_first() =~= members@.skip(i + 1));
                i = i + 1;
            }
            assert(members@.skip(i as int) =~= Seq::<(String, Json)>::empty());
            None
        },
        _ => None,
    }
}

/// The value `row` binds to the variable `name`.
pub fn bound(row: &Json, name: &str) -> (r: Option<String>)
    ensures
        arg_view(r) == bound_text(*row, name@),
{
    match member_of(row, name) {
        Some(binding) => match member_of(binding, "value") {
            Some(Json::Str(s)) => Some(s.clone()),
            _ => None,
        },
        None => None,
    }
}

/// The rows of a result set, each as the term query's variables; `None`
/// when the document has no array at `results.bindings`.
pub fn sparql_rows(doc: &Json) -> (r: Option<Vec<SparqlRow>>)
    ensures
        match r {
            Some(rows) => result_rows(*doc) == Some(row_views(rows@)),
            None => result_rows(*doc) is None,
        },
{
    let results = match member_of(doc, "results") {
        Some(results) => results,
        None => return None,
    };
    let list = match member_of(results, "bindings") {
        Some(Json::Array(list)) => list,
        _ => return None,
    };
    let mut rows: Vec<SparqlRow> = Vec::new();
    let mut i: usize = 0;
    while i < list.len()
        invariant
            i <= list@.len(),
            rows@.len() == i,
            forall|k: int| 0 <= k < i ==> (#[trigger] rows@[k])@ == row_of(list@[k]),
        decreases list@.len() - i,
    {
        let b = &list[i];
        let row = SparqlRow {
            term: bound(b, "term"),
            comment: bound(b, "comment"),
            parent: bound(b, "parent"),
            domain: bound(b, "domain"),
            range: bound(b, "range"),
        };
        rows.push(row);
        i = i + 1;
    }
    assert(row_views(rows@) =~= list@.map_values(|b: Json| row_of(b)));
    Some(rows)
}

/// The terms of a reading of a result set, merging the rows of one term.
pub fn terms_from_json(reading: Result<Json, String>) -> (r: Result<Vec<Term>, NameError>)
    ensures
        terms_outcome(r) == results_outcome(reading_view(reading)),
        r is Ok ==> distinct_iris(term_views(r->Ok_0@)),
{
    match reading {
        Err(e) => {
            let mut m = String::from_str("name: unreadable SPARQL results: ");
            m.append(e.as_str());
            Err(NameError::Endpoint(m))
        },
        Ok(doc) => match sparql_rows(&doc) {
            None => Err(NameError::Endpoint(String::from_str("name: SPARQL results had no bindings"))),
            Some(rows) => Ok(terms_from_rows(&rows)),
        },
    }
}

/// The terms a SPARQL result set documents, in order of first appearance.
pub fn terms_from_results(json: &[u8]) -> (r: Result<Vec<Term>, NameError>)
    ensures
        terms_outcome(r) == results_outcome(json_reading(json@)),
        r is Ok ==> distinct_iris(term_views(r->Ok_0@)),
{
    terms_from_json(parse_json(json))
}

} // verus!
