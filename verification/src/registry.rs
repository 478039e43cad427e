//! The namespace registry: who owns which prefix, and how it resolves.
//!
//! Two tenants sharing one resolver must not be able to answer for the same
//! IRI. The conflict is refused at **claim** time: a prefix may be claimed
//! only when no claimed prefix contains it and it contains no claimed prefix.
//! Afterwards overlap is unrepresentable, so resolution never arbitrates —
//! [`claims_are_exclusive`] is that fact, proved.
//!
//! Prefixes are compared **segment-wise, never textually**: `acme` contains
//! `acme/vocab` but is unrelated to `acmecorp`.

use vstd::prelude::*;
use vstd::string::*;
use crate::text::{debug_text, quoted};

verus! {

/// How a claimed namespace produces its answer.
#[derive(Debug, Clone, PartialEq, Eq)]
pub enum Strategy {
    /// The documents live here, served from `source`.
    Hosted {
        /// The resource the documents are read from.
        source: String,
    },
    /// The owner serves it themselves; the answer is a redirect to `target`.
    Redirect {
        /// Where the owner serves it.
        target: String,
    },
    /// A cached copy is served, but `origin` remains the source of truth.
    Mirror {
        /// The source of truth this copy tracks.
        origin: String,
    },
    /// A tombstone: the claim survives, the prefix can never be re-issued,
    /// and dereferencing it reports why it was withdrawn.
    Retired {
        /// Why the namespace was retired.
        reason: String,
    },
}

/// One claimed namespace.
#[derive(Debug, Clone, PartialEq, Eq)]
pub struct Namespace {
    /// The claimed path prefix, e.g. `resmud`.
    pub prefix: String,
    /// The capability that administers it.
    pub owner: String,
    /// How this namespace produces its answer.
    pub strategy: Strategy,
}

/// The ceilings a deployment holds itself to.
#[derive(Debug, Clone, Copy, PartialEq, Eq)]
pub struct Limits {
    /// The largest document served, in bytes.
    pub max_document_bytes: usize,
}

/// The whole registry, as the operator's file describes it.
#[derive(Debug, Clone, PartialEq, Eq)]
pub struct Registry {
    /// Every claimed namespace. No two may overlap; see [`Registry::claim`].
    pub namespaces: Vec<Namespace>,
    /// The ceilings in force.
    pub limits: Limits,
}

/// Why a claim was refused.
#[derive(Debug, Clone, PartialEq, Eq)]
pub enum ClaimError {
    /// The prefix was empty, or every segment of it was.
    Empty,
    /// An existing claim overlaps: it contains the new prefix, the new prefix
    /// contains it, or they are equal. Carries the existing prefix.
    Overlaps(String),
}

/// Why a registry file was refused as a whole.
#[derive(Debug, Clone, PartialEq, Eq)]
pub enum LoadError {
    /// The file is not a registry at all; carries the parser's account of why.
    Malformed(String),
    /// The entry for `prefix` could not have been claimed after the entries
    /// before it.
    Refused {
        /// The refused entry's prefix.
        prefix: String,
        /// Why its claim is refused.
        reason: ClaimError,
    },
}

/// A strategy, as characters.
pub ghost enum StrategyView {
    /// Served here, from this source.
    Hosted(Seq<char>),
    /// Served by its owner, at this target.
    Redirect(Seq<char>),
    /// A copy of this origin.
    Mirror(Seq<char>),
    /// Withdrawn, for this reason.
    Retired(Seq<char>),
}

impl View for Strategy {
    type V = StrategyView;

    open spec fn view(&self) -> StrategyView {
        match self {
            Strategy::Hosted { source } => StrategyView::Hosted(source@),
            Strategy::Redirect { target } => StrategyView::Redirect(target@),
            Strategy::Mirror { origin } => StrategyView::Mirror(origin@),
            Strategy::Retired { reason } => StrategyView::Retired(reason@),
        }
    }
}

/// A namespace, as characters.
pub ghost struct NamespaceView {
    /// The claimed prefix.
    pub prefix: Seq<char>,
    /// The administering capability.
    pub owner: Seq<char>,
    /// How it answers.
    pub strategy: StrategyView,
}

impl View for Namespace {
    type V = NamespaceView;

    open spec fn view(&self) -> NamespaceView {
        NamespaceView { prefix: self.prefix@, owner: self.owner@, strategy: self.strategy@ }
    }
}

/// The document ceiling used when the registry names none: 8 MiB.
pub const DEFAULT_MAX_DOCUMENT_BYTES: usize = 8388608;

// --- the model --------------------------------------------------------------

/// `cur`, as a list of at most one segment: a segment is never empty.
pub open spec fn flush(cur: Seq<char>) -> Seq<Seq<char>> {
    if cur.len() > 0 {
        seq![cur]
    } else {
        Seq::empty()
    }
}

/// The segments of `s`, the current segment having begun with `cur`: the
/// maximal runs of characters other than `/`, empty runs dropped.
pub open spec fn segs_from(s: Seq<char>, cur: Seq<char>) -> Seq<Seq<char>>
    decreases s.len(),
{
    if s.len() == 0 {
        flush(cur)
    } else if s[0] == '/' {
        flush(cur) + segs_from(s.drop_first(), Seq::empty())
    } else {
        segs_from(s.drop_first(), cur.push(s[0]))
    }
}

/// The path segments of a prefix or path. Leading, trailing and doubled
/// separators make no segment, so `acme`, `/acme` and `acme/` are one claim.
pub open spec fn segs(s: Seq<char>) -> Seq<Seq<char>> {
    segs_from(s, Seq::empty())
}

/// Whether two prefixes overlap: one's segments begin the other's.
pub open spec fn spec_overlaps(a: Seq<char>, b: Seq<char>) -> bool {
    segs(a).is_prefix_of(segs(b)) || segs(b).is_prefix_of(segs(a))
}

/// Whether a namespace claimed under `prefix` contains `path`.
pub open spec fn claims(prefix: Seq<char>, path: Seq<char>) -> bool {
    segs(prefix).is_prefix_of(segs(path))
}

/// The characters of each string.
pub open spec fn views(v: Seq<String>) -> Seq<Seq<char>> {
    v.map_values(|x: String| x@)
}

/// Namespace `i` is the first in `nss` whose prefix overlaps `prefix`.
pub open spec fn first_overlap(nss: Seq<Namespace>, prefix: Seq<char>, i: int) -> bool {
    &&& 0 <= i < nss.len()
    &&& spec_overlaps(nss[i].prefix@, prefix)
    &&& forall|j: int| 0 <= j < i ==> !spec_overlaps(#[trigger] nss[j].prefix@, prefix)
}

/// Namespace `i` is the first in `nss` claiming `path`.
pub open spec fn first_claiming(nss: Seq<Namespace>, path: Seq<char>, i: int) -> bool {
    &&& 0 <= i < nss.len()
    &&& claims(nss[i].prefix@, path)
    &&& forall|j: int| 0 <= j < i ==> !claims(#[trigger] nss[j].prefix@, path)
}

/// `prefix` may be claimed beside `nss`: it has a segment and overlaps none.
pub open spec fn claimable(nss: Seq<Namespace>, prefix: Seq<char>) -> bool {
    &&& segs(prefix).len() > 0
    &&& forall|i: int| 0 <= i < nss.len() ==> !spec_overlaps(#[trigger] nss[i].prefix@, prefix)
}

/// `r` is the claim rule's verdict on `prefix` beside `nss`.
pub open spec fn claim_verdict(
    nss: Seq<Namespace>,
    prefix: Seq<char>,
    r: Result<(), ClaimError>,
) -> bool {
    match r {
        Ok(()) => claimable(nss, prefix),
        Err(ClaimError::Empty) => segs(prefix).len() == 0,
        Err(ClaimError::Overlaps(existing)) => {
            &&& segs(prefix).len() > 0
            &&& exists|i: int| first_overlap(nss, prefix, i) && existing@ == nss[i].prefix@
        },
    }
}

/// No claimed prefix is empty and no two overlap — the registry invariant.
pub open spec fn well_formed(nss: Seq<Namespace>) -> bool {
    &&& forall|i: int| 0 <= i < nss.len() ==> segs(#[trigger] nss[i].prefix@).len() > 0
    &&& forall|i: int, j: int|
        0 <= i < nss.len() && 0 <= j < nss.len() && i != j ==> !spec_overlaps(
            #[trigger] nss[i].prefix@,
            #[trigger] nss[j].prefix@,
        )
}

/// Every entry could have been claimed after the entries before it.
pub open spec fn claimable_in_turn(entries: Seq<Namespace>) -> bool {
    forall|k: int| 0 <= k < entries.len() ==> claimable(entries.take(k), #[trigger] entries[k].prefix@)
}

/// Entry `k` is the first that could not have been claimed after the ones
/// before it.
pub open spec fn first_refused(entries: Seq<Namespace>, k: int) -> bool {
    &&& 0 <= k < entries.len()
    &&& !claimable(entries.take(k), entries[k].prefix@)
    &&& forall|j: int| 0 <= j < k ==> claimable(entries.take(j), #[trigger] entries[j].prefix@)
}

impl Registry {
    /// The registry invariant holds of this registry.
    pub open spec fn wf(&self) -> bool {
        well_formed(self.namespaces@)
    }
}

// --- proofs about the model -------------------------------------------------

proof fn lemma_prefix_of_common(x: Seq<Seq<char>>, y: Seq<Seq<char>>, z: Seq<Seq<char>>)
    requires
        x.is_prefix_of(z),
        y.is_prefix_of(z),
    ensures
        x.is_prefix_of(y) || y.is_prefix_of(x),
{
    if x.len() <= y.len() {
        assert(x =~= y.subrange(0, x.len() as int)) by {
            assert forall|i: int| 0 <= i < x.len() implies x[i] == y[i] by {
                assert(x[i] == z[i]);
                assert(y[i] == z[i]);
            }
        }
    } else {
        assert(y =~= x.subrange(0, y.len() as int)) by {
            assert forall|i: int| 0 <= i < y.len() implies y[i] == x[i] by {
                assert(x[i] == z[i]);
                assert(y[i] == z[i]);
            }
        }
    }
}

/// Two namespaces that both contain one path overlap.
pub proof fn claims_of_one_path_overlap(p: Seq<char>, q: Seq<char>, path: Seq<char>)
    requires
        claims(p, path),
        claims(q, path),
    ensures
        spec_overlaps(p, q),
{
    lemma_prefix_of_common(segs(p), segs(q), segs(path));
}

/// In a well-formed registry at most one namespace contains any path, so
/// resolution never has to choose between candidates.
pub proof fn claims_are_exclusive(reg: Registry, path: Seq<char>, i: int, j: int)
    requires
        reg.wf(),
        0 <= i < reg.namespaces@.len(),
        0 <= j < reg.namespaces@.len(),
        claims(reg.namespaces@[i].prefix@, path),
        claims(reg.namespaces@[j].prefix@, path),
    ensures
        i == j,
{
    claims_of_one_path_overlap(reg.namespaces@[i].prefix@, reg.namespaces@[j].prefix@, path);
}

/// Overlap is symmetric.
pub proof fn overlap_is_symmetric(a: Seq<char>, b: Seq<char>)
    ensures
        spec_overlaps(a, b) == spec_overlaps(b, a),
{
}

/// A claimed prefix contains itself, and overlaps itself.
pub proof fn a_prefix_claims_itself(p: Seq<char>)
    ensures
        claims(p, p),
        spec_overlaps(p, p),
{
    assert(segs(p) =~= segs(p).subrange(0, segs(p).len() as int));
}

/// Claiming a claimable prefix keeps a registry well formed.
pub proof fn lemma_claim_keeps_well_formed(nss: Seq<Namespace>, ns: Namespace)
    requires
        well_formed(nss),
        claimable(nss, ns.prefix@),
    ensures
        well_formed(nss.push(ns)),
{
    let after = nss.push(ns);
    assert forall|i: int| 0 <= i < after.len() implies segs(#[trigger] after[i].prefix@).len() > 0 by {
        if i < nss.len() {
            assert(after[i] == nss[i]);
        }
    }
    assert forall|i: int, j: int|
        0 <= i < after.len() && 0 <= j < after.len() && i != j implies !spec_overlaps(
        #[trigger] after[i].prefix@,
        #[trigger] after[j].prefix@,
    ) by {
        if i < nss.len() && j < nss.len() {
            assert(after[i] == nss[i]);
            assert(after[j] == nss[j]);
        } else if i < nss.len() {
            assert(after[i] == nss[i]);
            assert(!spec_overlaps(nss[i].prefix@, ns.prefix@));
        } else {
            assert(after[j] == nss[j]);
            assert(!spec_overlaps(nss[j].prefix@, ns.prefix@));
        }
    }
}

/// Once claimed, a prefix answers for every path under it: after a claim the
/// claim rule allowed, the new namespace is the first — and, the registry
/// being well formed, the only — one claiming any path its prefix contains.
pub proof fn a_claim_answers_for_its_paths(nss: Seq<Namespace>, ns: Namespace, path: Seq<char>)
    requires
        well_formed(nss),
        claimable(nss, ns.prefix@),
        claims(ns.prefix@, path),
    ensures
        first_claiming(nss.push(ns), path, nss.len() as int),
{
    let after = nss.push(ns);
    assert forall|j: int| 0 <= j < nss.len() implies !claims(#[trigger] after[j].prefix@, path) by {
        assert(after[j] == nss[j]);
        if claims(nss[j].prefix@, path) {
            claims_of_one_path_overlap(nss[j].prefix@, ns.prefix@, path);
            assert(!spec_overlaps(nss[j].prefix@, ns.prefix@));
        }
    }
    assert(after[nss.len() as int] == ns);
}

/// A file is accepted entry by entry under the claim rule exactly when it is
/// well formed: loading by claiming in turn is the one claim rule, not a
/// second copy of it.
pub proof fn claiming_in_turn_is_well_formedness(entries: Seq<Namespace>)
    ensures
        claimable_in_turn(entries) <==> well_formed(entries),
{
    if claimable_in_turn(entries) {
        assert forall|i: int| 0 <= i < entries.len() implies segs(
            #[trigger] entries[i].prefix@,
        ).len() > 0 by {
            assert(claimable(entries.take(i), entries[i].prefix@));
        }
        assert forall|i: int, j: int|
            0 <= i < entries.len() && 0 <= j < entries.len() && i != j implies !spec_overlaps(
            #[trigger] entries[i].prefix@,
            #[trigger] entries[j].prefix@,
        ) by {
            if i < j {
                assert(claimable(entries.take(j), entries[j].prefix@));
                assert(entries.take(j)[i] == entries[i]);
                assert(!spec_overlaps(entries.take(j)[i].prefix@, entries[j].prefix@));
            } else {
                assert(claimable(entries.take(i), entries[i].prefix@));
                assert(entries.take(i)[j] == entries[j]);
                assert(!spec_overlaps(entries.take(i)[j].prefix@, entries[i].prefix@));
            }
        }
    }
    if well_formed(entries) {
        assert forall|k: int| 0 <= k < entries.len() implies claimable(
            entries.take(k),
            #[trigger] entries[k].prefix@,
        ) by {
            assert forall|i: int| 0 <= i < entries.take(k).len() implies !spec_overlaps(
                #[trigger] entries.take(k)[i].prefix@,
                entries[k].prefix@,
            ) by {
                assert(entries.take(k)[i] == entries[i]);
            }
        }
    }
}

/// Lookup involves no precedence rule: reordering the entries of a
/// well-formed registry changes neither whether some namespace claims a path
/// nor which one [`Registry::lookup`] finds.
pub proof fn lookup_ignores_order(nss: Seq<Namespace>, other: Seq<Namespace>, path: Seq<char>)
    requires
        well_formed(nss),
        other.to_multiset() == nss.to_multiset(),
    ensures
        (forall|i: int| 0 <= i < nss.len() ==> !claims(#[trigger] nss[i].prefix@, path)) <==> (
        forall|j: int| 0 <= j < other.len() ==> !claims(#[trigger] other[j].prefix@, path)),
        forall|i: int, j: int|
            first_claiming(nss, path, i) && first_claiming(other, path, j) ==> #[trigger] nss[i]
                == #[trigger] other[j],
{
    nss.to_multiset_ensures();
    other.to_multiset_ensures();
    assert forall|i: int| 0 <= i < nss.len() && claims(#[trigger] nss[i].prefix@, path) implies exists|
        j: int,
    |
        0 <= j < other.len() && claims(#[trigger] other[j].prefix@, path) by {
        assert(nss.contains(nss[i]));
        assert(nss.to_multiset().count(nss[i]) > 0);
        assert(other.to_multiset().count(nss[i]) > 0);
        assert(other.contains(nss[i]));
        let j = choose|j: int| 0 <= j < other.len() && other[j] == nss[i];
        assert(claims(other[j].prefix@, path));
    }
    assert forall|j: int| 0 <= j < other.len() && claims(#[trigger] other[j].prefix@, path) implies exists|
        i: int,
    |
        0 <= i < nss.len() && claims(#[trigger] nss[i].prefix@, path) by {
        assert(other.contains(other[j]));
        assert(other.to_multiset().count(other[j]) > 0);
        assert(nss.to_multiset().count(other[j]) > 0);
        assert(nss.contains(other[j]));
        let i = choose|i: int| 0 <= i < nss.len() && nss[i] == other[j];
        assert(claims(nss[i].prefix@, path));
    }
    assert forall|i: int, j: int|
        first_claiming(nss, path, i) && first_claiming(other, path, j) implies #[trigger] nss[i]
        == #[trigger] other[j] by {
        assert(other.contains(other[j]));
        assert(other.to_multiset().count(other[j]) > 0);
        assert(nss.to_multiset().count(other[j]) > 0);
        assert(nss.contains(other[j]));
        let k = choose|k: int| 0 <= k < nss.len() && nss[k] == other[j];
        assert(claims(nss[k].prefix@, path));
        claims_of_one_path_overlap(nss[i].prefix@, nss[k].prefix@, path);
        if i != k {
            assert(!spec_overlaps(nss[i].prefix@, nss[k].prefix@));
        }
    }
}

proof fn lemma_trailing_separator(p: Seq<char>, cur: Seq<char>)
    ensures
        segs_from(p.push('/'), cur) == segs_from(p, cur),
    decreases p.len(),
{
    let q = p.push('/');
    if p.len() == 0 {
        assert(q.drop_first() =~= Seq::<char>::empty());
        assert(segs_from(Seq::<char>::empty(), Seq::empty()) =~= Seq::<Seq<char>>::empty());
        assert(flush(cur) + Seq::<Seq<char>>::empty() =~= flush(cur));
    } else {
        assert(q.drop_first() =~= p.drop_first().push('/'));
        assert(q[0] == p[0]);
        if p[0] == '/' {
            lemma_trailing_separator(p.drop_first(), Seq::empty());
        } else {
            lemma_trailing_separator(p.drop_first(), cur.push(p[0]));
        }
    }
}

proof fn lemma_doubled_separator(x: Seq<char>, y: Seq<char>, cur: Seq<char>)
    ensures
        segs_from(x + seq!['/', '/'] + y, cur) == segs_from(x + seq!['/'] + y, cur),
    decreases x.len(),
{
    let long = x + seq!['/', '/'] + y;
    let short = x + seq!['/'] + y;
    if x.len() == 0 {
        let mid = seq!['/'] + y;
        assert(long =~= seq!['/'] + mid);
        assert(long.drop_first() =~= mid);
        assert(short =~= mid);
        assert(mid.drop_first() =~= y);
        assert(long[0] == '/');
        assert(mid[0] == '/');
        let e = Seq::<char>::empty();
        assert(segs_from(long, cur) == flush(cur) + segs_from(mid, e));
        assert(segs_from(mid, e) == flush(e) + segs_from(y, e));
        assert(segs_from(mid, cur) == flush(cur) + segs_from(y, e));
        assert(flush(e) =~= Seq::<Seq<char>>::empty());
        assert(flush(e) + segs_from(y, e) =~= segs_from(y, e));
    } else {
        assert(long.drop_first() =~= x.drop_first() + seq!['/', '/'] + y);
        assert(short.drop_first() =~= x.drop_first() + seq!['/'] + y);
        assert(long[0] == x[0]);
        assert(short[0] == x[0]);
        if x[0] == '/' {
            lemma_doubled_separator(x.drop_first(), y, Seq::empty());
        } else {
            lemma_doubled_separator(x.drop_first(), y, cur.push(x[0]));
        }
    }
}

/// Separators do not make a new claim: a leading, a trailing or a doubled
/// `/` leaves the segments of a prefix — and so every overlap — unchanged.
pub proof fn separators_do_not_make_a_new_claim(x: Seq<char>, y: Seq<char>)
    ensures
        segs(seq!['/'] + x) == segs(x),
        segs(x.push('/')) == segs(x),
        segs(x + seq!['/', '/'] + y) == segs(x + seq!['/'] + y),
{
    let lead = seq!['/'] + x;
    assert(lead.drop_first() =~= x);
    assert(flush(Seq::<char>::empty()) + segs(x) =~= segs(x));
    lemma_trailing_separator(x, Seq::empty());
    lemma_doubled_separator(x, y, Seq::empty());
}

// --- execution --------------------------------------------------------------

/// Split a prefix into its path segments.
fn segments(s: &str) -> (out: Vec<String>)
    ensures
        views(out@) == segs(s@),
{
    let n = s.unicode_len();
    let mut out: Vec<String> = Vec::new();
    let mut start: usize = 0;
    let mut i: usize = 0;
    assert(s@.skip(0) =~= s@);
    assert(s@.subrange(0, 0) =~= Seq::<char>::empty());
    assert(views(out@) =~= Seq::<Seq<char>>::empty());
    while i < n
        invariant
            n == s@.len(),
            start <= i <= n,
            views(out@) + segs_from(s@.skip(i as int), s@.subrange(start as int, i as int)) == segs(
                s@,
            ),
        decreases n - i,
    {
        let ghost rest = s@.skip(i as int);
        let ghost cur = s@.subrange(start as int, i as int);
        let ghost before = views(out@);
        assert(rest[0] == s@[i as int]);
        assert(rest.drop_first() =~= s@.skip(i + 1));
        let c = s.get_char(i);
        if c == '/' {
            if start < i {
                let piece = String::from_str(s.substring_char(start, i));
                out.push(piece);
                assert(views(out@) =~= before.push(cur));
                assert(before + (flush(cur) + segs_from(s@.skip(i + 1), Seq::empty())) =~= views(
                    out@,
                ) + segs_from(s@.skip(i + 1), Seq::empty()));
            } else {
                assert(cur =~= Seq::<char>::empty());
                assert(flush(cur) =~= Seq::<Seq<char>>::empty());
                assert(before + (flush(cur) + segs_from(s@.skip(i + 1), Seq::empty())) =~= before
                    + segs_from(s@.skip(i + 1), Seq::empty()));
            }
            start = i + 1;
            assert(s@.subrange(start as int, (i + 1) as int) =~= Seq::<char>::empty());
        } else {
            assert(cur.push(c) =~= s@.subrange(start as int, (i + 1) as int));
        }
        i = i + 1;
    }
    let ghost cur = s@.subrange(start as int, n as int);
    let ghost before = views(out@);
    assert(s@.skip(n as int) =~= Seq::<char>::empty());
    if start < n {
        let piece = String::from_str(s.substring_char(start, n));
        out.push(piece);
        assert(views(out@) =~= before.push(cur));
        assert(before + flush(cur) =~= views(out@));
    } else {
        assert(cur =~= Seq::<char>::empty());
        assert(before + flush(cur) =~= before);
    }
    out
}

/// Whether the segments `x` begin the segments `y`.
fn begins(x: &Vec<String>, y: &Vec<String>) -> (r: bool)
    ensures
        r == views(x@).is_prefix_of(views(y@)),
{
    if x.len() > y.len() {
        return false;
    }
    let mut k: usize = 0;
    while k < x.len()
        invariant
            x.len() <= y.len(),
            k <= x.len(),
            forall|j: int| 0 <= j < k ==> x@[j]@ == y@[j]@,
        decreases x.len() - k,
    {
        if !(x[k] == y[k]) {
            assert(views(x@)[k as int] != views(y@)[k as int]);
            return false;
        }
        k = k + 1;
    }
    assert(views(x@) =~= views(y@).subrange(0, views(x@).len() as int));
    true
}

/// Whether two prefixes overlap — whether one is the other or contains it,
/// segment by segment.
pub fn overlaps(a: &str, b: &str) -> (r: bool)
    ensures
        r == spec_overlaps(a@, b@),
{
    let sa = segments(a);
    let sb = segments(b);
    begins(&sa, &sb) || begins(&sb, &sa)
}

impl Limits {
    /// The ceilings in force when the registry names none.
    fn standard() -> (l: Limits)
        ensures
            l.max_document_bytes == DEFAULT_MAX_DOCUMENT_BYTES,
    {
        Limits { max_document_bytes: DEFAULT_MAX_DOCUMENT_BYTES }
    }
}

impl Default for Limits {
    fn default() -> (l: Limits)
        ensures
            l.max_document_bytes == DEFAULT_MAX_DOCUMENT_BYTES,
    {
        Limits::standard()
    }
}

impl Default for Registry {
    fn default() -> (r: Registry)
        ensures
            r.namespaces@.len() == 0,
            r.limits.max_document_bytes == DEFAULT_MAX_DOCUMENT_BYTES,
    {
        Registry::empty(Limits::standard())
    }
}

impl Registry {
    /// A registry with no namespaces and the given ceilings.
    pub fn empty(limits: Limits) -> (r: Registry)
        ensures
            r.namespaces@.len() == 0,
            r.limits == limits,
            r.wf(),
    {
        Registry { namespaces: Vec::new(), limits }
    }

    /// The namespace claiming `path`, if any: the first whose segments begin
    /// the path's. In a well-formed registry it is the only one
    /// ([`claims_are_exclusive`]).
    pub fn lookup(&self, path: &str) -> (found: Option<&Namespace>)
        ensures
            found is None <==> forall|i: int|
                0 <= i < self.namespaces@.len() ==> !claims(
                    #[trigger] self.namespaces@[i].prefix@,
                    path@,
                ),
            found matches Some(ns) ==> exists|i: int|
                first_claiming(self.namespaces@, path@, i) && *ns == self.namespaces@[i],
    {
        let wanted = segments(path);
        let mut i: usize = 0;
        while i < self.namespaces.len()
            invariant
                i <= self.namespaces@.len(),
                views(wanted@) == segs(path@),
                forall|j: int| 0 <= j < i ==> !claims(#[trigger] self.namespaces@[j].prefix@, path@),
            decreases self.namespaces@.len() - i,
        {
            let claimed = segments(self.namespaces[i].prefix.as_str());
            if begins(&claimed, &wanted) {
                assert(first_claiming(self.namespaces@, path@, i as int));
                return Some(&self.namespaces[i]);
            }
            i = i + 1;
        }
        None
    }

    /// Whether `prefix` may be claimed, without changing anything.
    pub fn may_claim(&self, prefix: &str) -> (r: Result<(), ClaimError>)
        ensures
            claim_verdict(self.namespaces@, prefix@, r),
    {
        let mine = segments(prefix);
        if mine.len() == 0 {
            return Err(ClaimError::Empty);
        }
        let mut i: usize = 0;
        while i < self.namespaces.len()
            invariant
                i <= self.namespaces@.len(),
                segs(prefix@).len() > 0,
                forall|j: int|
                    0 <= j < i ==> !spec_overlaps(#[trigger] self.namespaces@[j].prefix@, prefix@),
            decreases self.namespaces@.len() - i,
        {
            if overlaps(self.namespaces[i].prefix.as_str(), prefix) {
                let existing = self.namespaces[i].prefix.clone();
                assert(first_overlap(self.namespaces@, prefix@, i as int));
                return Err(ClaimError::Overlaps(existing));
            }
            i = i + 1;
        }
        Ok(())
    }

    /// Claim `namespace`, or refuse with the reason and change nothing.
    pub fn claim(&mut self, namespace: Namespace) -> (r: Result<(), ClaimError>)
        ensures
            claim_verdict(old(self).namespaces@, namespace.prefix@, r),
            r is Ok ==> final(self).namespaces@ == old(self).namespaces@.push(namespace),
            r is Err ==> final(self).namespaces@ == old(self).namespaces@,
            final(self).limits == old(self).limits,
            old(self).wf() ==> final(self).wf(),
    {
        let verdict = self.may_claim(namespace.prefix.as_str());
        match verdict {
            Ok(()) => {
                proof {
                    if self.wf() {
                        lemma_claim_keeps_well_formed(self.namespaces@, namespace);
                    }
                }
                self.namespaces.push(namespace);
                Ok(())
            },
            Err(e) => Err(e),
        }
    }

    /// Rebuild a registry from the entries of a file by claiming each in turn,
    /// refusing the whole file at the first entry the claim rule refuses.
    pub fn from_entries(entries: Vec<Namespace>, limits: Limits) -> (r: Result<Registry, LoadError>)
        ensures
            r is Ok <==> well_formed(entries@),
            r matches Ok(reg) ==> reg.namespaces@ == entries@ && reg.limits == limits && reg.wf(),
            r matches Err(e) ==> match e {
                LoadError::Refused { prefix, reason } => exists|k: int|
                    first_refused(entries@, k) && prefix@ == entries@[k].prefix@ && claim_verdict(
                        entries@.take(k),
                        entries@[k].prefix@,
                        Err(reason),
                    ),
                LoadError::Malformed(_) => false,
            },
    {
        let ghost all = entries@;
        let total = entries.len();
        let mut reg = Registry::empty(limits);
        let mut rest = entries;
        let mut k: usize = 0;
        assert(all.take(0) =~= Seq::<Namespace>::empty());
        assert(all.skip(0) =~= all);
        while rest.len() > 0
            invariant
                all == entries@,
                total == all.len(),
                k <= all.len(),
                reg.namespaces@ == all.take(k as int),
                rest@ == all.skip(k as int),
                reg.limits == limits,
                reg.wf(),
                forall|j: int| 0 <= j < k ==> claimable(all.take(j), #[trigger] all[j].prefix@),
            decreases rest@.len(),
        {
            let ns = rest.remove(0);
            assert(ns == all[k as int]);
            let prefix = ns.prefix.clone();
            match reg.claim(ns) {
                Ok(()) => {},
                Err(reason) => {
                    proof {
                        if let ClaimError::Overlaps(_) = reason {
                            let i = choose|i: int|
                                first_overlap(all.take(k as int), all[k as int].prefix@, i);
                            assert(spec_overlaps(all.take(k as int)[i].prefix@, all[k as int].prefix@));
                        }
                        assert(!claimable(all.take(k as int), all[k as int].prefix@));
                        assert(!claimable_in_turn(all));
                        assert(first_refused(all, k as int));
                        claiming_in_turn_is_well_formedness(all);
                        assert(!well_formed(entries@));
                        assert(prefix@ == entries@[k as int].prefix@);
                        assert(claim_verdict(entries@.take(k as int), entries@[k as int].prefix@, Err(reason)));
                    }
                    return Err(LoadError::Refused { prefix, reason });
                },
            }
            assert(all.take(k + 1) =~= all.take(k as int).push(all[k as int]));
            assert(rest@ =~= all.skip(k + 1));
            k = k + 1;
        }
        assert(all.take(k as int) =~= all);
        proof {
            claiming_in_turn_is_well_formedness(all);
        }
        Ok(reg)
    }
}

/// The claim rule's refusal, in words: an empty prefix, or the claim it
/// overlaps.
pub open spec fn claim_error_text(e: ClaimError) -> Seq<char> {
    match e {
        ClaimError::Empty => "a namespace prefix cannot be empty"@,
        ClaimError::Overlaps(existing) => "overlaps the claimed namespace "@ + debug_text(
            existing@,
        ),
    }
}

impl ClaimError {
    /// The refusal in words.
    pub fn message(&self) -> (m: String)
        ensures
            m@ == claim_error_text(*self),
    {
        match self {
            ClaimError::Empty => String::from_str("a namespace prefix cannot be empty"),
            ClaimError::Overlaps(existing) => {
                let mut m = String::from_str("overlaps the claimed namespace ");
                let q = quoted(existing.as_str());
                m.append(q.as_str());
                m
            },
        }
    }
}

/// A refused registry file, in words: the parser's account, or the refused
/// entry quoted with the reason its claim fails.
pub open spec fn load_error_text(e: LoadError) -> Seq<char> {
    match e {
        LoadError::Malformed(why) => why@,
        LoadError::Refused { prefix, reason } => match reason {
            ClaimError::Empty => debug_text(prefix@) + ": "@ + claim_error_text(reason),
            ClaimError::Overlaps(_) => debug_text(prefix@) + " "@ + claim_error_text(reason),
        },
    }
}

impl LoadError {
    /// The refusal in words.
    pub fn message(&self) -> (m: String)
        ensures
            m@ == load_error_text(*self),
    {
        match self {
            LoadError::Malformed(why) => why.clone(),
            LoadError::Refused { prefix, reason } => {
                let mut m = quoted(prefix.as_str());
                match reason {
                    ClaimError::Empty => m.append(": "),
                    ClaimError::Overlaps(_) => m.append(" "),
                }
                let r = reason.message();
                m.append(r.as_str());
                m
            },
        }
    }
}

} // verus!
