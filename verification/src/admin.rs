//! Claiming and administering namespaces.
//!
//! Claiming and administering are separate authorities: `urn:cap:name:claim`
//! lets someone become a tenant at all, and `urn:cap:name:admin:<prefix>`
//! owns one namespace. The exact per-prefix grant is checked here, because
//! only this code knows which prefix a request names.
//!
//! There is no way to free a prefix: retiring one writes a tombstone, and
//! [`administration_never_releases_a_prefix`] proves that every
//! administrative change leaves every claimed prefix claimed.

use vstd::prelude::*;
use vstd::string::*;
use crate::error::{NameError, Refusal, arg_view, text_outcome, unit_outcome};
use crate::registry::{
    Namespace, NamespaceView, Registry, Strategy, StrategyView, ClaimError, claimable,
    first_overlap, segs, spec_overlaps, well_formed,
};
use crate::text::{debug_text, quoted, same, trim, trimmed};

verus! {

/// The capability permitting a new namespace to be claimed.
pub const CAP_CLAIM: &'static str = "urn:cap:name:claim";

/// The wildcard form of the per-namespace administrative capability, as an
/// action declares it.
pub const CAP_ADMIN_ANY: &'static str = "urn:cap:name:admin:*";

/// The text every per-namespace administrative capability starts with.
pub open spec fn admin_scope_head() -> Seq<char> {
    "urn:cap:name:admin:"@
}

/// The administrative capability for one namespace.
pub fn admin_scope(prefix: &str) -> (scope: String)
    ensures
        scope@ == admin_scope_head() + prefix@,
{
    let mut scope = String::from_str("urn:cap:name:admin:");
    scope.append(prefix);
    scope
}

// --- arguments --------------------------------------------------------------

/// A required argument's value: trimmed, and absent when blank.
pub open spec fn required_value(v: Option<Seq<char>>) -> Option<Seq<char>> {
    match v {
        Some(x) => if trimmed(x).len() > 0 {
            Some(trimmed(x))
        } else {
            None
        },
        None => None,
    }
}

/// A required argument: its trimmed value, or a refusal naming it.
pub open spec fn required_outcome(v: Option<Seq<char>>, name: Seq<char>) -> Result<
    Seq<char>,
    Refusal,
> {
    match required_value(v) {
        Some(t) => Ok(t),
        None => Err(Refusal::Missing(name)),
    }
}

/// A required argument: present and not blank, trimmed.
pub fn required(value: &Option<String>, name: &str) -> (r: Result<String, NameError>)
    ensures
        text_outcome(r) == required_outcome(arg_view(*value), name@),
{
    match value {
        Some(v) => {
            let t = trim(v.as_str());
            if t.unicode_len() == 0 {
                Err(NameError::MissingArgument(String::from_str(name)))
            } else {
                Ok(t)
            }
        },
        None => Err(NameError::MissingArgument(String::from_str(name))),
    }
}

/// An argument given by name, else piped as `content`: the named one wins
/// whenever it is present.
pub open spec fn named_or_piped(named: Option<Seq<char>>, content: Option<Seq<char>>) -> Option<
    Seq<char>,
> {
    match named {
        Some(v) => Some(v),
        None => content,
    }
}

/// Read the prefix a claim or administrative request names: `prefix=`, else
/// piped `content`; trimmed, and a missing `prefix` when absent or blank.
pub fn prefix_arg(prefix: &Option<String>, content: &Option<String>) -> (r: Result<
    String,
    NameError,
>)
    ensures
        text_outcome(r) == required_outcome(
            named_or_piped(arg_view(*prefix), arg_view(*content)),
            "prefix"@,
        ),
{
    match prefix {
        Some(_) => required(prefix, "prefix"),
        None => required(content, "prefix"),
    }
}

/// The arguments that name a strategy.
#[derive(Debug, Clone, PartialEq, Eq)]
pub struct StrategyArgs {
    /// `strategy=`: hosted, redirect or mirror.
    pub strategy: Option<String>,
    /// `source=`, which `hosted` needs.
    pub source: Option<String>,
    /// `target=`, which `redirect` needs.
    pub target: Option<String>,
    /// `origin=`, which `mirror` needs.
    pub origin: Option<String>,
}

/// Why `retired` cannot be set as a strategy.
pub open spec fn retire_by_delete() -> Seq<char> {
    "retire a namespace with the Delete verb, not by setting a strategy"@
}

/// The refusal of a strategy name that does not exist, listing those that do.
pub open spec fn unknown_strategy(named: Seq<char>) -> Seq<char> {
    "unknown strategy "@ + debug_text(named) + " (hosted, redirect, mirror)"@
}

/// The strategy the arguments name, or why they name none: a strategy is
/// required, each needs its companion argument, `retired` is reached only by
/// retiring, and an unknown name is refused with the real ones listed.
pub open spec fn strategy_outcome(a: StrategyArgs) -> Result<StrategyView, Refusal> {
    match required_value(arg_view(a.strategy)) {
        None => Err(Refusal::Missing("strategy"@)),
        Some(named) => if named == "hosted"@ {
            match required_value(arg_view(a.source)) {
                Some(v) => Ok(StrategyView::Hosted(v)),
                None => Err(Refusal::Missing("source"@)),
            }
        } else if named == "redirect"@ {
            match required_value(arg_view(a.target)) {
                Some(v) => Ok(StrategyView::Redirect(v)),
                None => Err(Refusal::Missing("target"@)),
            }
        } else if named == "mirror"@ {
            match required_value(arg_view(a.origin)) {
                Some(v) => Ok(StrategyView::Mirror(v)),
                None => Err(Refusal::Missing("origin"@)),
            }
        } else if named == "retired"@ {
            Err(Refusal::Invalid("strategy"@, retire_by_delete()))
        } else {
            Err(Refusal::Invalid("strategy"@, unknown_strategy(named)))
        },
    }
}

/// A strategy outcome, as characters.
pub open spec fn strategy_view(r: Result<Strategy, NameError>) -> Result<StrategyView, Refusal> {
    match r {
        Ok(s) => Ok(s@),
        Err(e) => Err(e@),
    }
}

/// Build the strategy named by `strategy=`, reading whichever companion
/// argument that choice requires.
pub fn strategy_from_args(args: &StrategyArgs) -> (r: Result<Strategy, NameError>)
    ensures
        strategy_view(r) == strategy_outcome(*args),
{
    let named = match required(&args.strategy, "strategy") {
        Ok(n) => n,
        Err(e) => return Err(e),
    };
    if same(named.as_str(), "hosted") {
        match required(&args.source, "source") {
            Ok(source) => Ok(Strategy::Hosted { source }),
            Err(e) => Err(e),
        }
    } else if same(named.as_str(), "redirect") {
        match required(&args.target, "target") {
            Ok(target) => Ok(Strategy::Redirect { target }),
            Err(e) => Err(e),
        }
    } else if same(named.as_str(), "mirror") {
        match required(&args.origin, "origin") {
            Ok(origin) => Ok(Strategy::Mirror { origin }),
            Err(e) => Err(e),
        }
    } else if same(named.as_str(), "retired") {
        Err(
            NameError::InvalidArgument {
                name: String::from_str("strategy"),
                detail: String::from_str(
                    "retire a namespace with the Delete verb, not by setting a strategy",
                ),
            },
        )
    } else {
        let mut detail = String::from_str("unknown strategy ");
        let q = quoted(named.as_str());
        detail.append(q.as_str());
        detail.append(" (hosted, redirect, mirror)");
        Err(NameError::InvalidArgument { name: String::from_str("strategy"), detail })
    }
}

// --- claiming ---------------------------------------------------------------

/// The namespace a claim request describes, or why it describes none. The
/// owner defaults to the claimant's administrative capability.
pub open spec fn claim_request_outcome(
    prefix: Option<Seq<char>>,
    args: StrategyArgs,
    owner: Option<Seq<char>>,
) -> Result<NamespaceView, Refusal> {
    match required_outcome(prefix, "prefix"@) {
        Err(e) => Err(e),
        Ok(p) => match strategy_outcome(args) {
            Err(e) => Err(e),
            Ok(st) => Ok(
                NamespaceView {
                    prefix: p,
                    owner: match owner {
                        Some(o) => trimmed(o),
                        None => admin_scope_head() + p,
                    },
                    strategy: st,
                },
            ),
        },
    }
}

/// A namespace outcome, as characters.
pub open spec fn namespace_view(r: Result<Namespace, NameError>) -> Result<
    NamespaceView,
    Refusal,
> {
    match r {
        Ok(n) => Ok(n@),
        Err(e) => Err(e@),
    }
}

/// Read a claim request: `prefix=` (else piped `content`), the strategy
/// arguments, and `owner=`.
pub fn claim_request(
    prefix: &Option<String>,
    content: &Option<String>,
    args: &StrategyArgs,
    owner: &Option<String>,
) -> (r: Result<Namespace, NameError>)
    ensures
        namespace_view(r) == claim_request_outcome(
            named_or_piped(arg_view(*prefix), arg_view(*content)),
            *args,
            arg_view(*owner),
        ),
{
    let prefix = match prefix_arg(prefix, content) {
        Ok(p) => p,
        Err(e) => return Err(e),
    };
    let strategy = match strategy_from_args(args) {
        Ok(s) => s,
        Err(e) => return Err(e),
    };
    let owner = match owner {
        Some(o) => trim(o.as_str()),
        None => admin_scope(prefix.as_str()),
    };
    Ok(Namespace { prefix, owner, strategy })
}

/// The refusal of a claim that overlaps `existing`.
pub open spec fn overlap_refusal(prefix: Seq<char>, existing: Seq<char>) -> Seq<char> {
    "name: "@ + debug_text(prefix) + " overlaps the claimed namespace "@ + debug_text(existing)
}

/// The refusal of an empty prefix.
pub open spec fn empty_prefix_refusal() -> Refusal {
    Refusal::Invalid("prefix"@, "a namespace prefix cannot be empty"@)
}

/// A claim refusal as a face's refusal: an empty prefix is an unusable
/// argument; an overlap is a permanent denial naming the claim in the way.
pub open spec fn claim_refusal(prefix: Seq<char>, e: ClaimError) -> Refusal {
    match e {
        ClaimError::Empty => empty_prefix_refusal(),
        ClaimError::Overlaps(existing) => Refusal::Denied(overlap_refusal(prefix, existing@)),
    }
}

/// Turn a claim refusal into a face's refusal.
pub fn claim_error(prefix: &str, error: ClaimError) -> (e: NameError)
    ensures
        e@ == claim_refusal(prefix@, error),
{
    match error {
        ClaimError::Empty => NameError::InvalidArgument {
            name: String::from_str("prefix"),
            detail: String::from_str("a namespace prefix cannot be empty"),
        },
        ClaimError::Overlaps(existing) => {
            let mut m = String::from_str("name: ");
            let q = quoted(prefix);
            m.append(q.as_str());
            m.append(" overlaps the claimed namespace ");
            let qe = quoted(existing.as_str());
            m.append(qe.as_str());
            NameError::Denied(m)
        },
    }
}

/// What a successful claim reports.
pub open spec fn claimed_message(ns: NamespaceView) -> Seq<char> {
    "claimed "@ + ns.prefix + "\t"@ + ns.owner + "\n"@
}

/// Claim `ns` into `registry`: recorded and reported when the claim rule
/// allows it; otherwise refused as the rule says, with nothing changed.
pub fn apply_claim(registry: &mut Registry, ns: Namespace) -> (r: Result<String, NameError>)
    ensures
        r is Ok <==> claimable(old(registry).namespaces@, ns.prefix@),
        r is Ok ==> final(registry).namespaces@ == old(registry).namespaces@.push(ns)
            && text_outcome(r) == Ok::<Seq<char>, Refusal>(claimed_message(ns@)),
        r is Err ==> final(registry).namespaces@ == old(registry).namespaces@,
        segs(ns.prefix@).len() == 0 ==> text_outcome(r) == Err::<Seq<char>, Refusal>(
            empty_prefix_refusal(),
        ),
        forall|i: int|
            segs(ns.prefix@).len() > 0 && first_overlap(old(registry).namespaces@, ns.prefix@, i)
                ==> text_outcome(r) == Err::<Seq<char>, Refusal>(
                Refusal::Denied(
                    overlap_refusal(ns.prefix@, old(registry).namespaces@[i].prefix@),
                ),
            ),
        final(registry).limits == old(registry).limits,
        old(registry).wf() ==> final(registry).wf(),
{
    let prefix = ns.prefix.clone();
    let owner = ns.owner.clone();
    let ghost before = registry.namespaces@;
    match registry.claim(ns) {
        Ok(()) => {
            let mut m = String::from_str("claimed ");
            m.append(prefix.as_str());
            m.append("\t");
            m.append(owner.as_str());
            m.append("\n");
            Ok(m)
        },
        Err(e) => {
            proof {
                if e is Overlaps {
                    let existing = e->Overlaps_0;
                    let k = choose|k: int| first_overlap(before, prefix@, k) && existing@ == before[k].prefix@;
                    assert forall|i: int| first_overlap(before, prefix@, i) implies i == k by {
                        if i < k {
                            assert(!spec_overlaps(before[i].prefix@, prefix@));
                        } else if k < i {
                            assert(!spec_overlaps(before[k].prefix@, prefix@));
                        }
                    }
                }
            }
            Err(claim_error(prefix.as_str(), e))
        },
    }
}

// --- administering ----------------------------------------------------------

/// The refusal of a capability lacking `administering`'s exact grant.
pub open spec fn admin_denial(prefix: Seq<char>) -> Seq<char> {
    "name: administering "@ + debug_text(prefix) + " needs `"@ + admin_scope_head() + prefix
        + "`"@
}

/// The exact per-prefix gate, given whether the capability holds the grant.
pub fn admin_gate(allowed: bool, prefix: &str) -> (r: Result<(), NameError>)
    ensures
        unit_outcome(r) == if allowed {
            Ok::<(), Refusal>(())
        } else {
            Err(Refusal::Denied(admin_denial(prefix@)))
        },
{
    if allowed {
        Ok(())
    } else {
        let scope = admin_scope(prefix);
        let mut m = String::from_str("name: administering ");
        let q = quoted(prefix);
        m.append(q.as_str());
        m.append(" needs `");
        m.append(scope.as_str());
        m.append("`");
        assert(m@ =~= admin_denial(prefix@));
        Err(NameError::Denied(m))
    }
}

#[verifier::external_type_specification]
#[verifier::external_body]
pub struct ExCapability(ikigai_core::Capability);

/// Whether `cap` grants `scope` exactly, as `Capability::allows` decides it:
/// from the capability's own grants and the scope alone.
pub uninterp spec fn grants(cap: ikigai_core::Capability, scope: Seq<char>) -> bool;

/// Calls `Capability::allows`: whether the capability holds `scope` exactly
/// (a root capability holds every scope; a scoped one holds what it lists,
/// never an exclusion). The contract names the answer; its rules are
/// `ikigai_core`'s and are not restated here.
#[verifier::external_body]
fn capability_allows(cap: &ikigai_core::Capability, scope: &str) -> (b: bool)
    ensures
        b == grants(*cap, scope@),
{
    cap.allows(scope)
}

/// Require the exact per-prefix administrative grant — the half of the check
/// that tells one tenant from another: the request goes through exactly when
/// the capability grants `urn:cap:name:admin:<prefix>` itself, and the
/// wildcard family an action declares is not enough.
pub fn require_admin(cap: &ikigai_core::Capability, prefix: &str) -> (r: Result<(), NameError>)
    ensures
        unit_outcome(r) == if grants(*cap, admin_scope_head() + prefix@) {
            Ok::<(), Refusal>(())
        } else {
            Err(Refusal::Denied(admin_denial(prefix@)))
        },
{
    let scope = admin_scope(prefix);
    let allowed = capability_allows(cap, scope.as_str());
    admin_gate(allowed, prefix)
}

/// Tenants are isolated: two different prefixes have different
/// administrative grants, so the grant [`require_admin`] asks for on behalf
/// of one namespace is never the grant of another.
pub proof fn each_namespace_has_its_own_grant(p: Seq<char>, q: Seq<char>)
    requires
        p != q,
    ensures
        admin_scope_head() + p != admin_scope_head() + q,
{
    let h = admin_scope_head();
    if h + p == h + q {
        assert(p =~= (h + p).subrange(h.len() as int, (h + p).len() as int));
        assert(q =~= (h + q).subrange(h.len() as int, (h + q).len() as int));
    }
}

/// What an administrative request asks for.
#[derive(Debug, Clone, PartialEq, Eq)]
pub enum AdminAction {
    /// Retire the namespace (Delete), optionally saying why.
    Retire {
        /// `reason=`, if given.
        reason: Option<String>,
    },
    /// Change how it resolves (Sink).
    Update(StrategyArgs),
}

/// Namespace `i` is the first whose prefix is exactly `prefix`.
pub open spec fn first_named(nss: Seq<Namespace>, prefix: Seq<char>, i: int) -> bool {
    &&& 0 <= i < nss.len()
    &&& nss[i].prefix@ == prefix
    &&& forall|j: int| 0 <= j < i ==> (#[trigger] nss[j].prefix@) != prefix
}

/// The refusal for a prefix no namespace holds.
pub open spec fn unclaimed(prefix: Seq<char>) -> Seq<char> {
    "name: no namespace claims "@ + debug_text(prefix)
}

/// The reason a retirement records: the one given, trimmed, or `withdrawn`.
pub open spec fn retire_reason(reason: Option<Seq<char>>) -> Seq<char> {
    match reason {
        Some(r) => trimmed(r),
        None => "withdrawn"@,
    }
}

/// The two registries hold the same prefixes, in the same places.
pub open spec fn same_prefixes(a: Seq<Namespace>, b: Seq<Namespace>) -> bool {
    &&& a.len() == b.len()
    &&& forall|j: int| 0 <= j < a.len() ==> (#[trigger] a[j]).prefix@ == b[j].prefix@
}

/// `after` is `before` with entry `i` now answering by `strategy`.
pub open spec fn restrategized(
    before: Seq<Namespace>,
    after: Seq<Namespace>,
    i: int,
    strategy: StrategyView,
) -> bool {
    &&& after.len() == before.len()
    &&& forall|j: int| 0 <= j < before.len() && j != i ==> #[trigger] after[j] == before[j]
    &&& after[i]@ == NamespaceView {
        prefix: before[i].prefix@,
        owner: before[i].owner@,
        strategy,
    }
}

/// Administer the namespace whose prefix is exactly `prefix`: retire it
/// (a tombstone that keeps the claim) or change its strategy. An unclaimed
/// prefix is not found, and a refused request changes nothing.
pub fn admin_apply(registry: &mut Registry, prefix: &str, action: &AdminAction) -> (r: Result<
    String,
    NameError,
>)
    ensures
        final(registry).limits == old(registry).limits,
        same_prefixes(old(registry).namespaces@, final(registry).namespaces@),
        r is Err ==> final(registry).namespaces@ == old(registry).namespaces@,
        (forall|i: int| 0 <= i < old(registry).namespaces@.len() ==> (#[trigger] old(
            registry,
        ).namespaces@[i]).prefix@ != prefix@) ==> text_outcome(r) == Err::<Seq<char>, Refusal>(
            Refusal::NotFound(unclaimed(prefix@)),
        ),
        forall|i: int| #[trigger]
            first_named(old(registry).namespaces@, prefix@, i) ==> match *action {
                AdminAction::Retire { reason } => {
                    let why = retire_reason(arg_view(reason));
                    &&& restrategized(
                        old(registry).namespaces@,
                        final(registry).namespaces@,
                        i,
                        StrategyView::Retired(why),
                    )
                    &&& text_outcome(r) == Ok::<Seq<char>, Refusal>(
                        "retired "@ + prefix@ + "\t"@ + why + "\n"@,
                    )
                },
                AdminAction::Update(args) => match strategy_outcome(args) {
                    Ok(st) => {
                        &&& restrategized(
                            old(registry).namespaces@,
                            final(registry).namespaces@,
                            i,
                            st,
                        )
                        &&& text_outcome(r) == Ok::<Seq<char>, Refusal>(
                            "updated "@ + prefix@ + "\n"@,
                        )
                    },
                    Err(e) => text_outcome(r) == Err::<Seq<char>, Refusal>(e),
                },
            },
{
    let ghost before = registry.namespaces@;
    let mut i: usize = 0;
    while i < registry.namespaces.len() && !same(registry.namespaces[i].prefix.as_str(), prefix)
        invariant
            registry.namespaces@ == before,
            i <= before.len(),
            forall|j: int| 0 <= j < i ==> (#[trigger] before[j]).prefix@ != prefix@,
        decreases before.len() - i,
    {
        i = i + 1;
    }
    if i == registry.namespaces.len() {
        let mut m = String::from_str("name: no namespace claims ");
        let q = quoted(prefix);
        m.append(q.as_str());
        return Err(NameError::NotFound(m));
    }
    assert(first_named(before, prefix@, i as int));
    assert forall|k: int| first_named(before, prefix@, k) implies k == i by {
        if k < i {
        } else if k > i {
            assert(before[i as int].prefix@ == prefix@);
        }
    }
    let (strategy, message) = match action {
        AdminAction::Retire { reason } => {
            let why = match reason {
                Some(text) => trim(text.as_str()),
                None => String::from_str("withdrawn"),
            };
            let mut m = String::from_str("retired ");
            m.append(prefix);
            m.append("\t");
            m.append(why.as_str());
            m.append("\n");
            (Strategy::Retired { reason: why }, m)
        },
        AdminAction::Update(args) => {
            let strategy = match strategy_from_args(args) {
                Ok(s) => s,
                Err(e) => return Err(e),
            };
            let mut m = String::from_str("updated ");
            m.append(prefix);
            m.append("\n");
            (strategy, m)
        },
    };
    let updated = Namespace {
        prefix: registry.namespaces[i].prefix.clone(),
        owner: registry.namespaces[i].owner.clone(),
        strategy,
    };
    registry.namespaces.set(i, updated);
    assert forall|j: int| 0 <= j < before.len() implies (#[trigger] before[j]).prefix@
        == registry.namespaces@[j].prefix@ by {
        if j != i {
            assert(registry.namespaces@[j] == before[j]);
        }
    }
    Ok(message)
}

/// Administration never releases a prefix: a change that keeps every prefix
/// in place — which [`admin_apply`] always does — keeps the registry well
/// formed, and every prefix it held stays refused to any later claim.
pub proof fn administration_never_releases_a_prefix(
    before: Seq<Namespace>,
    after: Seq<Namespace>,
    j: int,
)
    requires
        well_formed(before),
        same_prefixes(before, after),
        0 <= j < before.len(),
    ensures
        well_formed(after),
        !claimable(after, before[j].prefix@),
{
    assert forall|i: int| 0 <= i < after.len() implies segs(#[trigger] after[i].prefix@).len() > 0 by {
        assert(before[i].prefix@ == after[i].prefix@);
    }
    assert forall|a: int, b: int|
        0 <= a < after.len() && 0 <= b < after.len() && a != b implies !spec_overlaps(
        #[trigger] after[a].prefix@,
        #[trigger] after[b].prefix@,
    ) by {
        assert(before[a].prefix@ == after[a].prefix@);
        assert(before[b].prefix@ == after[b].prefix@);
    }
    let p = before[j].prefix@;
    assert(after[j].prefix@ == p);
    assert(segs(p) =~= segs(p).subrange(0, segs(p).len() as int));
    assert(spec_overlaps(after[j].prefix@, p));
}

} // verus!
