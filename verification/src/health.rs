//! `urn:name:health` — the gauge: what this deployment holds, what it
//! refuses, and which faces claim their results are cacheable.

use vstd::prelude::*;
use crate::registry::{Namespace, Registry, Strategy};

verus! {

/// What this deployment is holding and refusing.
#[derive(Debug, Clone, PartialEq, Eq)]
pub struct Health<'a> {
    /// Namespaces claimed, retired ones included — a retired claim still
    /// occupies its prefix forever.
    pub namespaces: usize,
    /// Of those, how many are served from here.
    pub hosted: usize,
    /// How many point at their owner's own node.
    pub redirected: usize,
    /// How many are copies of someone else's origin.
    pub mirrored: usize,
    /// How many are tombstones.
    pub retired: usize,
    /// The document ceiling in force, in bytes.
    pub max_document_bytes: usize,
    /// Which faces mark their own results cacheable.
    pub cacheable: Vec<&'a str>,
}

/// Which of the four strategies `s` is: hosted, redirect, mirror, retired.
pub open spec fn kind(s: Strategy) -> int {
    match s {
        Strategy::Hosted { .. } => 0,
        Strategy::Redirect { .. } => 1,
        Strategy::Mirror { .. } => 2,
        Strategy::Retired { .. } => 3,
    }
}

/// How many of `nss` answer by strategy kind `k`.
pub open spec fn count_kind(nss: Seq<Namespace>, k: int) -> nat
    decreases nss.len(),
{
    if nss.len() == 0 {
        0
    } else {
        count_kind(nss.drop_last(), k) + if kind(nss.last().strategy) == k {
            1nat
        } else {
            0nat
        }
    }
}

/// Every namespace answers by exactly one strategy, so the four counts add up
/// to the whole — retired namespaces still count against the total.
pub proof fn every_namespace_is_counted_once(nss: Seq<Namespace>)
    ensures
        count_kind(nss, 0) + count_kind(nss, 1) + count_kind(nss, 2) + count_kind(nss, 3)
            == nss.len(),
    decreases nss.len(),
{
    if nss.len() > 0 {
        every_namespace_is_counted_once(nss.drop_last());
    }
}

/// Each count is the number of namespaces answering by that strategy: hosted
/// namespaces are counted as hosted, redirects as redirected, mirrors as
/// mirrored and tombstones as retired — whatever order they come in.
pub proof fn each_count_is_its_strategy(nss: Seq<Namespace>)
    ensures
        count_kind(nss, 0) == nss.filter(|n: Namespace| n.strategy is Hosted).len(),
        count_kind(nss, 1) == nss.filter(|n: Namespace| n.strategy is Redirect).len(),
        count_kind(nss, 2) == nss.filter(|n: Namespace| n.strategy is Mirror).len(),
        count_kind(nss, 3) == nss.filter(|n: Namespace| n.strategy is Retired).len(),
    decreases nss.len(),
{
    reveal(Seq::filter);
    if nss.len() > 0 {
        each_count_is_its_strategy(nss.drop_last());
    }
}

proof fn lemma_count_bounded(nss: Seq<Namespace>, k: int)
    ensures
        count_kind(nss, k) <= nss.len(),
    decreases nss.len(),
{
    if nss.len() > 0 {
        lemma_count_bounded(nss.drop_last(), k);
    }
}

/// The faces whose results are a pure function of their inputs and which
/// therefore mark themselves cacheable. Sinks are absent: they mutate.
pub open spec fn cacheable_faces_spec() -> Seq<&'static str> {
    seq!["urn:name:registry", "urn:name:resolve", "urn:name:docs", "urn:name:document"]
}

/// The faces that mark their results cacheable.
pub fn cacheable_faces() -> (faces: Vec<&'static str>)
    ensures
        faces@ == cacheable_faces_spec(),
{
    let mut faces = Vec::new();
    faces.push("urn:name:registry");
    faces.push("urn:name:resolve");
    faces.push("urn:name:docs");
    faces.push("urn:name:document");
    assert(faces@ =~= cacheable_faces_spec());
    faces
}

/// The report for `registry`: counts by strategy, the ceiling in force, and
/// the faces that claim cacheability.
pub fn health_report(registry: &Registry) -> (h: Health<'static>)
    ensures
        h.namespaces == registry.namespaces@.len(),
        h.hosted == count_kind(registry.namespaces@, 0),
        h.redirected == count_kind(registry.namespaces@, 1),
        h.mirrored == count_kind(registry.namespaces@, 2),
        h.retired == count_kind(registry.namespaces@, 3),
        h.hosted == registry.namespaces@.filter(|n: Namespace| n.strategy is Hosted).len(),
        h.redirected == registry.namespaces@.filter(|n: Namespace| n.strategy is Redirect).len(),
        h.mirrored == registry.namespaces@.filter(|n: Namespace| n.strategy is Mirror).len(),
        h.retired == registry.namespaces@.filter(|n: Namespace| n.strategy is Retired).len(),
        h.namespaces == h.hosted + h.redirected + h.mirrored + h.retired,
        h.max_document_bytes == registry.limits.max_document_bytes,
        h.cacheable@ == cacheable_faces_spec(),
{
    let nss = &registry.namespaces;
    let mut hosted: usize = 0;
    let mut redirected: usize = 0;
    let mut mirrored: usize = 0;
    let mut retired: usize = 0;
    let mut i: usize = 0;
    assert(nss@.take(0) =~= Seq::<Namespace>::empty());
    while i < nss.len()
        invariant
            i <= nss@.len(),
            hosted == count_kind(nss@.take(i as int), 0),
            redirected == count_kind(nss@.take(i as int), 1),
            mirrored == count_kind(nss@.take(i as int), 2),
            retired == count_kind(nss@.take(i as int), 3),
        decreases nss@.len() - i,
    {
        proof {
            assert(nss@.take(i + 1).drop_last() =~= nss@.take(i as int));
            assert(nss@.take(i + 1).last() == nss@[i as int]);
            lemma_count_bounded(nss@.take(i as int), 0);
            lemma_count_bounded(nss@.take(i as int), 1);
            lemma_count_bounded(nss@.take(i as int), 2);
            lemma_count_bounded(nss@.take(i as int), 3);
        }
        match &nss[i].strategy {
            Strategy::Hosted { .. } => hosted = hosted + 1,
            Strategy::Redirect { .. } => redirected = redirected + 1,
            Strategy::Mirror { .. } => mirrored = mirrored + 1,
            Strategy::Retired { .. } => retired = retired + 1,
        }
        i = i + 1;
    }
    proof {
        assert(nss@.take(nss@.len() as int) =~= nss@);
        every_namespace_is_counted_once(nss@);
        each_count_is_its_strategy(nss@);
    }
    Health {
        namespaces: nss.len(),
        hosted,
        redirected,
        mirrored,
        retired,
        max_document_bytes: registry.limits.max_document_bytes,
        cacheable: cacheable_faces(),
    }
}

} // verus!
