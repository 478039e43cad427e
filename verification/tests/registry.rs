use ikigai_name::registry::Limits;
use ikigai_name::{overlaps, ClaimError, LoadError, Namespace, Registry, Strategy};

fn hosted(prefix: &str) -> Namespace {
    Namespace {
        prefix: prefix.to_string(),
        owner: format!("urn:cap:name:admin:{prefix}"),
        strategy: Strategy::Hosted {
            source: format!("urn:file:{prefix}"),
        },
    }
}

fn registry(prefixes: &[&str]) -> Registry {
    Registry {
        namespaces: prefixes.iter().map(|p| hosted(p)).collect(),
        limits: Limits::default(),
    }
}

#[test]
fn an_unrelated_prefix_is_claimable() {
    assert_eq!(registry(&["resmud"]).may_claim("acme"), Ok(()));
}

#[test]
fn the_same_prefix_cannot_be_claimed_twice() {
    assert_eq!(
        registry(&["resmud"]).may_claim("resmud"),
        Err(ClaimError::Overlaps("resmud".into()))
    );
}

#[test]
fn a_prefix_under_an_existing_claim_is_refused() {
    assert_eq!(
        registry(&["resmud"]).may_claim("resmud/core"),
        Err(ClaimError::Overlaps("resmud".into()))
    );
}

#[test]
fn a_prefix_above_an_existing_claim_is_refused() {
    assert_eq!(
        registry(&["resmud/core"]).may_claim("resmud"),
        Err(ClaimError::Overlaps("resmud/core".into()))
    );
}

#[test]
fn a_shared_text_prefix_is_not_a_conflict() {
    assert_eq!(registry(&["acme"]).may_claim("acmecorp"), Ok(()));
    assert!(!overlaps("acme", "acmecorp"));
}

#[test]
fn separators_do_not_make_a_new_claim() {
    for spelling in ["/resmud", "resmud/", "/resmud/", "resmud//"] {
        assert_eq!(
            registry(&["resmud"]).may_claim(spelling),
            Err(ClaimError::Overlaps("resmud".into())),
            "{spelling:?} should be the same claim as resmud"
        );
    }
}

#[test]
fn an_empty_prefix_is_refused() {
    assert_eq!(registry(&[]).may_claim(""), Err(ClaimError::Empty));
    assert_eq!(registry(&[]).may_claim("///"), Err(ClaimError::Empty));
}

#[test]
fn claiming_adds_it_and_the_second_attempt_fails() {
    let mut reg = Registry::default();
    assert_eq!(reg.claim(hosted("resmud")), Ok(()));
    assert_eq!(
        reg.claim(hosted("resmud")),
        Err(ClaimError::Overlaps("resmud".into()))
    );
    assert_eq!(
        reg.namespaces.len(),
        1,
        "a refused claim must not be stored"
    );
}

#[test]
fn lookup_finds_the_claim_containing_a_path() {
    let reg = registry(&["resmud", "acme"]);
    assert_eq!(
        reg.lookup("resmud/core").map(|n| &*n.prefix),
        Some("resmud")
    );
    assert_eq!(reg.lookup("resmud").map(|n| &*n.prefix), Some("resmud"));
    assert_eq!(reg.lookup("nobody/here"), None);
}

#[test]
fn lookup_does_not_match_a_partial_segment() {
    assert_eq!(registry(&["acme"]).lookup("acmecorp/vocab"), None);
}

// --- further cases ---------------------------------------------------------

#[test]
fn overlap_is_segment_wise_in_both_directions() {
    assert!(overlaps("acme", "acme/vocab"));
    assert!(overlaps("acme/vocab", "acme"));
    assert!(overlaps("/acme/", "acme"));
    assert!(!overlaps("acme/vocab", "acme/other"));
    assert!(overlaps("", "anything"), "no segments begin every prefix");
}

#[test]
fn the_default_ceiling_is_eight_mebibytes() {
    assert_eq!(Limits::default().max_document_bytes, 8 * 1024 * 1024);
    assert_eq!(Registry::default().limits.max_document_bytes, 8388608);
    assert!(Registry::default().namespaces.is_empty());
}

#[test]
fn a_well_formed_file_loads_in_order() {
    let entries = vec![hosted("resmud"), hosted("acme"), hosted("resmudx")];
    let reg = Registry::from_entries(entries.clone(), Limits { max_document_bytes: 10 })
        .expect("no two entries overlap");
    assert_eq!(reg.namespaces, entries);
    assert_eq!(reg.limits.max_document_bytes, 10);
}

#[test]
fn an_overlapping_file_is_refused_at_the_first_conflicting_entry() {
    let entries = vec![hosted("resmud"), hosted("resmud/core"), hosted("acme")];
    let err = Registry::from_entries(entries, Limits::default()).expect_err("overlaps");
    assert_eq!(
        err,
        LoadError::Refused {
            prefix: "resmud/core".into(),
            reason: ClaimError::Overlaps("resmud".into())
        }
    );
    assert_eq!(
        err.message(),
        "\"resmud/core\" overlaps the claimed namespace \"resmud\""
    );
}

#[test]
fn a_file_with_an_empty_prefix_is_refused() {
    let err = Registry::from_entries(vec![hosted("a"), hosted("//")], Limits::default())
        .expect_err("empty");
    assert_eq!(
        err,
        LoadError::Refused {
            prefix: "//".into(),
            reason: ClaimError::Empty
        }
    );
    assert_eq!(err.message(), "\"//\": a namespace prefix cannot be empty");
}

#[test]
fn a_claim_is_found_by_lookup_afterwards() {
    let mut reg = registry(&["acme"]);
    reg.claim(hosted("resmud")).expect("claimable");
    assert_eq!(reg.lookup("resmud/core/Weapon").map(|n| &*n.prefix), Some("resmud"));
    assert_eq!(reg.lookup("resmud"), Some(&reg.namespaces[1]));
    assert_eq!(reg.lookup("nobody"), None);
}

#[test]
fn claim_error_messages_name_the_claim_in_the_way() {
    assert_eq!(
        ClaimError::Overlaps("resmud".into()).message(),
        "overlaps the claimed namespace \"resmud\""
    );
    assert_eq!(ClaimError::Empty.message(), "a namespace prefix cannot be empty");
}
