//! Whether a string is an IRI the kernel accepts.

use vstd::prelude::*;
use crate::error::arg_view;

verus! {

/// What `ikigai_core::Iri::parse` reports for `s`: nothing when `s` parses as
/// an absolute IRI, otherwise the displayed parse error.
pub uninterp spec fn iri_parse_error(s: Seq<char>) -> Option<Seq<char>>;

/// Calls `ikigai_core::Iri::parse(s)` and keeps only the outcome: `None`
/// when `s` is an IRI, `Some` with the error's displayed text when it is not.
/// Both depend on `s` alone.
#[verifier::external_body]
pub(crate) fn iri_problem(s: &str) -> (problem: Option<String>)
    ensures
        arg_view(problem) == iri_parse_error(s@),
{
    match ikigai_core::Iri::parse(s) {
        Ok(_) => None,
        Err(e) => Some(e.to_string()),
    }
}

} // verus!
