//! The negotiated face: one IRI, many representations.
//!
//! Turtle is the hub and is served as stored; HTML is the documentation
//! face; everything else is reached through a transreptor chain. The
//! decisions between those — which document, whether it may leave this host,
//! whether it needs converting — are made here; fetching and converting are
//! the host's.

use vstd::prelude::*;
use vstd::string::*;
use crate::error::{NameError, Refusal, arg_view, text_outcome, unit_outcome};
use crate::iri::{iri_parse_error, iri_problem};
use crate::registry::{
    Limits, NamespaceView, Registry, Strategy, StrategyView, claims, first_claiming,
};
use crate::resolve::{path_arg, path_outcome, resolve_path, retired_error, retired_refusal};
use crate::admin::unclaimed;
use crate::text::{
    debug_text, decimal, decimal_text, is_space, quoted, same, trim, trim_end, trim_start, trimmed,
};

verus! {

/// Turtle: the hub representation, and the default when nothing is asked for.
pub const CANONICAL: &'static str = "text/turtle";

/// The HTML face, produced by the documentation face rather than converted.
pub const HTML: &'static str = "text/html";

/// The characters of `s` before its first `c`, or all of `s`.
pub open spec fn before_char(s: Seq<char>, c: char) -> Seq<char>
    decreases s.len(),
{
    if s.len() == 0 {
        s
    } else if s[0] == c {
        Seq::empty()
    } else {
        seq![s[0]] + before_char(s.drop_first(), c)
    }
}

/// A media type without its parameters: `text/turtle; charset=utf-8` is
/// `text/turtle`.
pub open spec fn bare_type(media_type: Seq<char>) -> Seq<char> {
    trimmed(before_char(media_type, ';'))
}

proof fn lemma_before_char(s: Seq<char>, c: char, i: int)
    requires
        0 <= i <= s.len(),
        forall|k: int| 0 <= k < i ==> #[trigger] s[k] != c,
        i == s.len() || s[i] == c,
    ensures
        before_char(s, c) == s.take(i),
    decreases i,
{
    if i == 0 {
        if s.len() == 0 {
            assert(s.take(0) =~= s);
        } else {
            assert(s.take(0) =~= Seq::<char>::empty());
        }
    } else {
        let t = s.drop_first();
        assert forall|k: int| 0 <= k < i - 1 implies #[trigger] t[k] != c by {
            assert(t[k] == s[k + 1]);
        }
        if i < s.len() {
            assert(t[i - 1] == s[i]);
        }
        assert(s[0] != c);
        lemma_before_char(t, c, i - 1);
        assert(seq![s[0]] + t.take(i - 1) =~= s.take(i));
    }
}

/// Media-type parameters do not defeat negotiation: whatever follows the
/// first `;` is ignored, so `text/turtle; charset=utf-8` negotiates as
/// `text/turtle`.
pub proof fn parameters_do_not_defeat_negotiation(media_type: Seq<char>, params: Seq<char>)
    requires
        forall|k: int| 0 <= k < media_type.len() ==> #[trigger] media_type[k] != ';',
    ensures
        bare_type(media_type + seq![';'] + params) == bare_type(media_type),
{
    let whole = media_type + seq![';'] + params;
    assert forall|k: int| 0 <= k < media_type.len() implies #[trigger] whole[k] != ';' by {
        assert(whole[k] == media_type[k]);
    }
    assert(whole[media_type.len() as int] == ';');
    lemma_before_char(whole, ';', media_type.len() as int);
    lemma_before_char(media_type, ';', media_type.len() as int);
    assert(whole.take(media_type.len() as int) =~= media_type);
    assert(media_type.take(media_type.len() as int) =~= media_type);
}

/// Turtle, bare, is itself, and is not the HTML face.
pub(crate) proof fn lemma_turtle_is_bare()
    ensures
        bare_type(CANONICAL@) == CANONICAL@,
        CANONICAL@ != HTML@,
        forall|k: int| 0 <= k < CANONICAL@.len() ==> #[trigger] CANONICAL@[k] != ';',
{
    reveal_strlit("text/turtle");
    reveal_strlit("text/html");
    let t = seq!['t', 'e', 'x', 't', '/', 't', 'u', 'r', 't', 'l', 'e'];
    assert(CANONICAL@ =~= t);
    assert forall|k: int| 0 <= k < t.len() implies #[trigger] t[k] != ';' by {
        if k == 0 {} else if k == 1 {} else if k == 2 {} else if k == 3 {} else if k == 4 {
        } else if k == 5 {} else if k == 6 {} else if k == 7 {} else if k == 8 {} else if k == 9 {
        } else {}
    }
    lemma_before_char(t, ';', t.len() as int);
    assert(t.take(t.len() as int) =~= t);
    assert(!is_space(t[0]) && !is_space(t.last()));
    assert(trim_start(t) == t);
    assert(trim_end(t) == t);
    assert(bare_type(CANONICAL@) == CANONICAL@);
    assert(HTML@.len() != CANONICAL@.len());
}

/// HTML is the documentation face's, whoever stores the document: asked of
/// a hosted or a mirrored namespace, `text/html` (with or without
/// parameters) renders that namespace's documentation page rather than
/// fetching its document; anything else is read from the source or origin.
pub proof fn html_is_rendered_by_the_documentation_face(ns: NamespaceView, wanted: Seq<char>)
    requires
        ns.strategy is Hosted || ns.strategy is Mirror,
    ensures
        bare_type(wanted) == HTML@ ==> step_outcome(ns, wanted) == Ok::<StepView, Refusal>(
            StepView::RenderDocs(ns.prefix),
        ),
        bare_type(wanted) != HTML@ ==> (ns.strategy matches StrategyView::Hosted(src)
            ==> step_outcome(ns, wanted) == Ok::<StepView, Refusal>(StepView::Fetch(src))),
        bare_type(wanted) != HTML@ ==> (ns.strategy matches StrategyView::Mirror(origin)
            ==> step_outcome(ns, wanted) == Ok::<StepView, Refusal>(StepView::Fetch(origin))),
{
}

/// Turtle is asked for in three ways that negotiate alike: no `as` at all,
/// `as=text/turtle`, and `as=text/turtle; charset=utf-8` all want Turtle,
/// which is not the HTML face, so the document face reads a hosted or
/// mirrored document from its source in all three, and [`after_fetch`]
/// serves a stored Turtle document within the ceiling as it is.
pub proof fn turtle_is_asked_for_alike(ns: NamespaceView, stored_type: Seq<char>)
    requires
        bare_type(stored_type) == CANONICAL@,
    ensures
        wanted_outcome(None) == CANONICAL@,
        wanted_outcome(Some(CANONICAL@)) == CANONICAL@,
        wanted_outcome(Some("text/turtle; charset=utf-8"@)) == CANONICAL@,
        step_outcome(ns, wanted_outcome(Some(CANONICAL@))) == step_outcome(ns, wanted_outcome(None)),
        step_outcome(ns, wanted_outcome(Some("text/turtle; charset=utf-8"@))) == step_outcome(
            ns,
            wanted_outcome(None),
        ),
        ns.strategy matches StrategyView::Hosted(src) ==> step_outcome(ns, wanted_outcome(None))
            == Ok::<StepView, Refusal>(StepView::Fetch(src)),
        ns.strategy matches StrategyView::Mirror(src) ==> step_outcome(ns, wanted_outcome(None))
            == Ok::<StepView, Refusal>(StepView::Fetch(src)),
        bare_type(stored_type) == wanted_outcome(None),
{
    reveal_strlit("text/turtle; charset=utf-8");
    reveal_strlit(" charset=utf-8");
    lemma_turtle_is_bare();
    let t = seq!['t', 'e', 'x', 't', '/', 't', 'u', 'r', 't', 'l', 'e'];
    reveal_strlit("text/turtle");
    assert(CANONICAL@ =~= t);
    parameters_do_not_defeat_negotiation(t, " charset=utf-8"@);
    assert("text/turtle; charset=utf-8"@ =~= t + seq![';'] + " charset=utf-8"@);
}

/// The media type alone, without parameters.
pub fn bare(media_type: &str) -> (b: String)
    ensures
        b@ == bare_type(media_type@),
{
    let n = media_type.unicode_len();
    let mut i: usize = 0;
    while i < n && media_type.get_char(i) != ';'
        invariant
            n == media_type@.len(),
            i <= n,
            forall|k: int| 0 <= k < i ==> #[trigger] media_type@[k] != ';',
        decreases n - i,
    {
        i = i + 1;
    }
    proof {
        lemma_before_char(media_type@, ';', i as int);
        assert(media_type@.take(i as int) =~= media_type@.subrange(0, i as int));
    }
    trim(media_type.substring_char(0, i))
}

/// The path a document request names: the template binding when the IRI
/// carries it, else `path=`, else piped `content`.
pub open spec fn document_path_outcome(
    binding: Option<Seq<char>>,
    path: Option<Seq<char>>,
    content: Option<Seq<char>>,
) -> Result<Seq<char>, Refusal> {
    match binding {
        Some(b) => Ok(trimmed(b)),
        None => path_outcome(path, content),
    }
}

/// Read the path of a document request, most specific source first.
pub fn document_path(binding: &Option<String>, path: &Option<String>, content: &Option<String>) -> (r:
    Result<String, NameError>)
    ensures
        text_outcome(r) == document_path_outcome(
            arg_view(*binding),
            arg_view(*path),
            arg_view(*content),
        ),
{
    match binding {
        Some(b) => Ok(trim(b.as_str())),
        None => path_arg(path, content),
    }
}

/// The representation asked for: `as=` without its parameters, Turtle when
/// absent.
pub open spec fn wanted_outcome(as_arg: Option<Seq<char>>) -> Seq<char> {
    match as_arg {
        Some(t) => bare_type(t),
        None => CANONICAL@,
    }
}

/// Read `as=`.
pub fn wanted_type(as_arg: &Option<String>) -> (w: String)
    ensures
        w@ == wanted_outcome(arg_view(*as_arg)),
{
    match as_arg {
        Some(t) => bare(t.as_str()),
        None => String::from_str(CANONICAL),
    }
}

/// What the document face does next.
#[derive(Debug, Clone, PartialEq, Eq)]
pub enum DocumentStep {
    /// Ask the documentation face for this namespace's page.
    RenderDocs {
        /// The namespace to document.
        prefix: String,
    },
    /// Read the stored document from this resource.
    Fetch {
        /// The resource the document is read from.
        source: String,
    },
}

/// A step, as characters.
pub ghost enum StepView {
    /// Render the documentation page for this prefix.
    RenderDocs(Seq<char>),
    /// Read the document from this source.
    Fetch(Seq<char>),
}

/// A step outcome, as characters.
pub open spec fn step_view(r: Result<DocumentStep, NameError>) -> Result<StepView, Refusal> {
    match r {
        Ok(DocumentStep::RenderDocs { prefix }) => Ok(StepView::RenderDocs(prefix@)),
        Ok(DocumentStep::Fetch { source }) => Ok(StepView::Fetch(source@)),
        Err(e) => Err(e@),
    }
}

/// The refusal of a namespace its owner serves elsewhere, naming where.
pub open spec fn redirect_refusal(prefix: Seq<char>, target: Seq<char>) -> Refusal {
    Refusal::Endpoint("name: "@ + debug_text(prefix) + " redirects to "@ + target)
}

/// What the document face does for the namespace `ns` when `wanted` is
/// asked for: a hosted or mirrored document is read from its source, or
/// documented when HTML is wanted; a redirect reports its target; a retired
/// namespace reports its retirement.
pub open spec fn step_outcome(ns: NamespaceView, wanted: Seq<char>) -> Result<StepView, Refusal> {
    let source = match ns.strategy {
        StrategyView::Hosted(s) => Ok(s),
        StrategyView::Mirror(o) => Ok(o),
        StrategyView::Redirect(t) => Err(redirect_refusal(ns.prefix, t)),
        StrategyView::Retired(r) => Err(retired_refusal(ns.prefix, r)),
    };
    match source {
        Err(e) => Err(e),
        Ok(s) => if bare_type(wanted) == HTML@ {
            Ok(StepView::RenderDocs(ns.prefix))
        } else {
            Ok(StepView::Fetch(s))
        },
    }
}

/// Decide the document face's next step for `path`.
pub fn document_step(registry: &Registry, path: &str, wanted: &str) -> (r: Result<
    DocumentStep,
    NameError,
>)
    ensures
        (forall|i: int|
            0 <= i < registry.namespaces@.len() ==> !claims(
                #[trigger] registry.namespaces@[i].prefix@,
                path@,
            )) ==> step_view(r) == Err::<StepView, Refusal>(Refusal::NotFound(unclaimed(path@))),
        forall|i: int| #[trigger]
            first_claiming(registry.namespaces@, path@, i) ==> step_view(r) == step_outcome(
                registry.namespaces@[i]@,
                wanted@,
            ),
{
    let found = match resolve_path(registry, path) {
        Ok(ns) => ns,
        Err(e) => return Err(e),
    };
    proof {
        let k = choose|k: int| first_claiming(registry.namespaces@, path@, k) && *found == registry.namespaces@[k];
        assert forall|i: int| first_claiming(registry.namespaces@, path@, i) implies i == k by {
            if i < k {
                assert(!claims(registry.namespaces@[i].prefix@, path@));
            } else if k < i {
                assert(!claims(registry.namespaces@[k].prefix@, path@));
            }
        }
    }
    let source = match &found.strategy {
        Strategy::Hosted { source } => source.clone(),
        Strategy::Mirror { origin } => origin.clone(),
        Strategy::Redirect { target } => {
            let mut m = String::from_str("name: ");
            let q = quoted(found.prefix.as_str());
            m.append(q.as_str());
            m.append(" redirects to ");
            m.append(target.as_str());
            return Err(NameError::Endpoint(m));
        },
        Strategy::Retired { reason } => {
            return Err(retired_error(found.prefix.as_str(), reason.as_str()));
        },
    };
    let b = bare(wanted);
    if same(b.as_str(), HTML) {
        Ok(DocumentStep::RenderDocs { prefix: found.prefix.clone() })
    } else {
        Ok(DocumentStep::Fetch { source })
    }
}

/// The refusal of a source that is not an IRI.
pub open spec fn bad_source(source: Seq<char>, why: Seq<char>) -> Refusal {
    Refusal::Endpoint("name: bad source "@ + debug_text(source) + ": "@ + why)
}

/// Check that a namespace's source is an IRI before it is read.
pub fn check_source(source: &str) -> (r: Result<(), NameError>)
    ensures
        unit_outcome(r) == match iri_parse_error(source@) {
            None => Ok::<(), Refusal>(()),
            Some(why) => Err(bad_source(source@, why)),
        },
{
    match iri_problem(source) {
        None => Ok(()),
        Some(why) => {
            let mut m = String::from_str("name: bad source ");
            let q = quoted(source);
            m.append(q.as_str());
            m.append(": ");
            m.append(why.as_str());
            Err(NameError::Endpoint(m))
        },
    }
}

/// The refusal of a transreptor step whose endpoint is not an IRI.
pub open spec fn bad_transreptor(endpoint: Seq<char>, why: Seq<char>) -> Refusal {
    Refusal::Endpoint("name: bad transreptor "@ + endpoint + ": "@ + why)
}

/// Check that a transreptor step names an IRI before it is driven.
pub fn check_transreptor(endpoint: &str) -> (r: Result<(), NameError>)
    ensures
        unit_outcome(r) == match iri_parse_error(endpoint@) {
            None => Ok::<(), Refusal>(()),
            Some(why) => Err(bad_transreptor(endpoint@, why)),
        },
{
    match iri_problem(endpoint) {
        None => Ok(()),
        Some(why) => {
            let mut m = String::from_str("name: bad transreptor ");
            m.append(endpoint);
            m.append(": ");
            m.append(why.as_str());
            Err(NameError::Endpoint(m))
        },
    }
}

/// What becomes of a stored document.
#[derive(Debug, Clone, PartialEq, Eq)]
pub enum Delivery {
    /// It is already what was asked for: serve it as stored.
    Serve,
    /// It must be converted from its own type, `have`.
    Convert {
        /// The stored document's media type, without parameters.
        have: String,
    },
}

/// The refusal of a document over the ceiling, naming the setting that
/// would raise it.
pub open spec fn over_ceiling(path: Seq<char>, size: nat, ceiling: nat) -> Refusal {
    Refusal::Endpoint(
        "name: "@ + debug_text(path) + " is "@ + decimal(size) + " bytes, over this host's "@
            + decimal(ceiling)
            + "-byte ceiling (raise limits.max_document_bytes in the registry)"@,
    )
}

/// A delivery outcome, as characters.
pub open spec fn delivery_view(r: Result<Delivery, NameError>) -> Result<Option<Seq<char>>, Refusal> {
    match r {
        Ok(Delivery::Serve) => Ok(None),
        Ok(Delivery::Convert { have }) => Ok(Some(have@)),
        Err(e) => Err(e@),
    }
}

/// Decide what becomes of a stored document of `size` bytes and type
/// `media_type` when `wanted` is asked for: over the ceiling it is refused;
/// of the wanted type it is served; otherwise it must be converted.
pub fn after_fetch(path: &str, limits: Limits, size: usize, media_type: &str, wanted: &str) -> (r:
    Result<Delivery, NameError>)
    ensures
        size > limits.max_document_bytes ==> delivery_view(r) == Err::<Option<Seq<char>>, Refusal>(
            over_ceiling(path@, size as nat, limits.max_document_bytes as nat),
        ),
        size <= limits.max_document_bytes ==> delivery_view(r) == if bare_type(media_type@)
            == wanted@ {
            Ok::<Option<Seq<char>>, Refusal>(None)
        } else {
            Ok(Some(bare_type(media_type@)))
        },
{
    let ceiling = limits.max_document_bytes;
    if size > ceiling {
        let mut m = String::from_str("name: ");
        let q = quoted(path);
        m.append(q.as_str());
        m.append(" is ");
        let s = decimal_text(size);
        m.append(s.as_str());
        m.append(" bytes, over this host's ");
        let c = decimal_text(ceiling);
        m.append(c.as_str());
        m.append("-byte ceiling (raise limits.max_document_bytes in the registry)");
        return Err(NameError::Endpoint(m));
    }
    let have = bare(media_type);
    if same(have.as_str(), wanted) {
        Ok(Delivery::Serve)
    } else {
        Ok(Delivery::Convert { have })
    }
}

/// The refusal when nothing converts `have` to `wanted`, naming what is
/// available and what would fix it.
pub open spec fn no_conversion_text(have: Seq<char>, wanted: Seq<char>) -> Seq<char> {
    "name: nothing converts "@ + have + " to "@ + wanted + " (this host serves "@ + have
        + " and text/html; bind a transreptor for "@ + wanted + " to add it)"@
}

/// The refusal when no transreptor chain reaches the wanted type.
pub fn no_conversion(have: &str, wanted: &str) -> (e: NameError)
    ensures
        e@ == Refusal::Endpoint(no_conversion_text(have@, wanted@)),
{
    let mut m = String::from_str("name: nothing converts ");
    m.append(have);
    m.append(" to ");
    m.append(wanted);
    m.append(" (this host serves ");
    m.append(have);
    m.append(" and text/html; bind a transreptor for ");
    m.append(wanted);
    m.append(" to add it)");
    NameError::Endpoint(m)
}

} // verus!
