use ikigai_name::health::{cacheable_faces, health_report};
use ikigai_name::registry::Limits;
use ikigai_name::{Namespace, Registry, Strategy};

fn ns(prefix: &str, strategy: Strategy) -> Namespace {
    Namespace { prefix: prefix.into(), owner: "x".into(), strategy }
}

fn registry() -> Registry {
    Registry::from_entries(
        vec![
            ns("a", Strategy::Hosted { source: "urn:file:a".into() }),
            ns("b", Strategy::Redirect { target: "https://b.example/".into() }),
            ns("c", Strategy::Mirror { origin: "https://c.example/".into() }),
            ns("d", Strategy::Retired { reason: "ended".into() }),
        ],
        Limits { max_document_bytes: 4096 },
    )
    .expect("well formed")
}

#[test]
fn every_strategy_is_counted_separately() {
    let h = health_report(&registry());
    assert_eq!(h.namespaces, 4);
    assert_eq!(
        (h.hosted, h.redirected, h.mirrored, h.retired),
        (1, 1, 1, 1)
    );
}

#[test]
fn retired_namespaces_still_count_against_the_total() {
    let h = health_report(&registry());
    assert_eq!(
        h.namespaces,
        h.hosted + h.redirected + h.mirrored + h.retired
    );
}

#[test]
fn the_ceiling_in_force_is_reported() {
    let h = health_report(&registry());
    assert_eq!(h.max_document_bytes, 4096);
}

#[test]
fn the_default_ceiling_is_reported_when_none_is_configured() {
    let h = health_report(&Registry::default());
    assert_eq!(h.max_document_bytes, 8 * 1024 * 1024);
}

#[test]
fn it_names_the_faces_it_claims_are_cacheable() {
    let h = health_report(&registry());
    assert!(h.cacheable.contains(&"urn:name:docs"));
    assert!(
        !h.cacheable.contains(&"urn:name:claim"),
        "a Sink is never cacheable"
    );
}

#[test]
fn the_cacheable_faces_are_the_four_read_faces() {
    assert_eq!(
        cacheable_faces(),
        vec!["urn:name:registry", "urn:name:resolve", "urn:name:docs", "urn:name:document"]
    );
}
