//! How a curated path resolves: the namespace claiming it, and its answer.

use vstd::prelude::*;
use vstd::string::*;
use crate::admin::unclaimed;
use crate::error::{NameError, Refusal, arg_view, text_outcome};
use crate::registry::{
    Namespace, NamespaceView, Registry, Strategy, StrategyView, LoadError, claims,
    first_claiming, load_error_text,
};
use crate::text::{debug_text, quoted, trim, trimmed};

verus! {

/// The capability gating administration of a namespace, in its bare form.
pub const CAP_ADMIN: &'static str = "urn:cap:name:admin";

/// Where the registry is read from: a bound IRI, not a path.
pub const REGISTRY_IRI: &'static str = "urn:name:registry-source";

/// The `path` argument, falling back to piped `content`, trimmed.
pub open spec fn path_outcome(path: Option<Seq<char>>, content: Option<Seq<char>>) -> Result<
    Seq<char>,
    Refusal,
> {
    match path {
        Some(p) => Ok(trimmed(p)),
        None => match content {
            Some(c) => Ok(trimmed(c)),
            None => Err(Refusal::Missing("path"@)),
        },
    }
}

/// Read the path a request names: `path=`, else piped `content`; neither is
/// a missing `path`.
pub fn path_arg(path: &Option<String>, content: &Option<String>) -> (r: Result<String, NameError>)
    ensures
        text_outcome(r) == path_outcome(arg_view(*path), arg_view(*content)),
{
    match path {
        Some(p) => Ok(trim(p.as_str())),
        None => match content {
            Some(c) => Ok(trim(c.as_str())),
            None => Err(NameError::MissingArgument(String::from_str("path"))),
        },
    }
}

/// The namespace claiming `path`, or a permanent absence naming the path.
pub fn resolve_path<'r>(registry: &'r Registry, path: &str) -> (r: Result<&'r Namespace, NameError>)
    ensures
        r is Err <==> forall|i: int|
            0 <= i < registry.namespaces@.len() ==> !claims(
                #[trigger] registry.namespaces@[i].prefix@,
                path@,
            ),
        r matches Ok(ns) ==> exists|i: int|
            first_claiming(registry.namespaces@, path@, i) && *ns == registry.namespaces@[i],
        r matches Err(e) ==> e@ == Refusal::NotFound(unclaimed(path@)),
{
    match registry.lookup(path) {
        Some(ns) => Ok(ns),
        None => {
            let mut m = String::from_str("name: no namespace claims ");
            let q = quoted(path);
            m.append(q.as_str());
            Err(NameError::NotFound(m))
        },
    }
}

/// The refusal of a retired namespace: a permanent absence that says why.
pub open spec fn retired_refusal(prefix: Seq<char>, reason: Seq<char>) -> Refusal {
    Refusal::NotFound("name: "@ + debug_text(prefix) + " is retired: "@ + reason)
}

/// How a namespace answers: its prefix, its strategy and where that points,
/// tab-separated on one line; a retired namespace answers with its retirement.
pub open spec fn answer(ns: NamespaceView) -> Result<Seq<char>, Refusal> {
    match ns.strategy {
        StrategyView::Hosted(s) => Ok(ns.prefix + "\thosted\t"@ + s + "\n"@),
        StrategyView::Redirect(t) => Ok(ns.prefix + "\tredirect\t"@ + t + "\n"@),
        StrategyView::Mirror(o) => Ok(ns.prefix + "\tmirror\t"@ + o + "\n"@),
        StrategyView::Retired(r) => Err(retired_refusal(ns.prefix, r)),
    }
}

/// The retirement refusal for `prefix`.
pub fn retired_error(prefix: &str, reason: &str) -> (e: NameError)
    ensures
        e@ == retired_refusal(prefix@, reason@),
{
    let mut m = String::from_str("name: ");
    let q = quoted(prefix);
    m.append(q.as_str());
    m.append(" is retired: ");
    m.append(reason);
    NameError::NotFound(m)
}

/// `urn:name:resolve`'s answer for `path`.
pub fn resolve_answer(registry: &Registry, path: &str) -> (r: Result<String, NameError>)
    ensures
        (forall|i: int|
            0 <= i < registry.namespaces@.len() ==> !claims(
                #[trigger] registry.namespaces@[i].prefix@,
                path@,
            )) ==> text_outcome(r) == Err::<Seq<char>, Refusal>(Refusal::NotFound(unclaimed(path@))),
        forall|i: int| #[trigger]
            first_claiming(registry.namespaces@, path@, i) ==> text_outcome(r) == answer(
                registry.namespaces@[i]@,
            ),
{
    let found = match resolve_path(registry, path) {
        Ok(ns) => ns,
        Err(e) => return Err(e),
    };
    proof {
        let k = choose|k: int| first_claiming(registry.namespaces@, path@, k) && *found == registry.namespaces@[k];
        assert forall|i: int| first_claiming(registry.namespaces@, path@, i) implies i == k by {
            if i < k {
                assert(!claims(registry.namespaces@[i].prefix@, path@));
            } else if k < i {
                assert(!claims(registry.namespaces@[k].prefix@, path@));
            }
        }
    }
    let mut out = found.prefix.clone();
    match &found.strategy {
        Strategy::Hosted { source } => {
            out.append("\thosted\t");
            out.append(source.as_str());
        },
        Strategy::Redirect { target } => {
            out.append("\tredirect\t");
            out.append(target.as_str());
        },
        Strategy::Mirror { origin } => {
            out.append("\tmirror\t");
            out.append(origin.as_str());
        },
        Strategy::Retired { reason } => {
            return Err(retired_error(found.prefix.as_str(), reason.as_str()));
        },
    }
    out.append("\n");
    Ok(out)
}

/// The refusal of a registry file that cannot be served, naming the resource
/// the operator must open.
pub open spec fn registry_refusal_text(e: LoadError) -> Seq<char> {
    "name: urn:name:registry-source is not a valid registry: "@ + load_error_text(e)
}

/// A refused registry file as a face's refusal: nothing in it is served.
pub fn registry_refusal(e: &LoadError) -> (r: NameError)
    ensures
        r@ == Refusal::Endpoint(registry_refusal_text(*e)),
{
    let mut m = String::from_str("name: urn:name:registry-source is not a valid registry: ");
    let why = e.message();
    m.append(why.as_str());
    NameError::Endpoint(m)
}

} // verus!
