use ikigai_core::Capability;
use ikigai_name::admin::{
    admin_apply, admin_gate, apply_claim, claim_error, claim_request, prefix_arg, require_admin,
    required,
    strategy_from_args, AdminAction, StrategyArgs,
};
use ikigai_name::registry::Limits;
use ikigai_name::resolve::resolve_answer;
use ikigai_name::{admin_scope, ClaimError, NameError, Namespace, Registry, Strategy, CAP_CLAIM};

fn some(s: &str) -> Option<String> {
    Some(s.to_string())
}

fn args(strategy: Option<&str>, source: Option<&str>, target: Option<&str>, origin: Option<&str>) -> StrategyArgs {
    StrategyArgs {
        strategy: strategy.map(str::to_string),
        source: source.map(str::to_string),
        target: target.map(str::to_string),
        origin: origin.map(str::to_string),
    }
}

fn empty() -> Registry {
    Registry::default()
}

fn one() -> Registry {
    Registry {
        namespaces: vec![Namespace {
            prefix: "resmud".into(),
            owner: "urn:cap:name:admin:resmud".into(),
            strategy: Strategy::Hosted {
                source: "urn:file:resmud-vocab".into(),
            },
        }],
        limits: Limits::default(),
    }
}

fn owner_of(prefix: &str) -> Capability {
    Capability::scoped([admin_scope(prefix)])
}

fn claimant() -> Capability {
    Capability::scoped([CAP_CLAIM])
}

/// The claim face's logic: read the request, then claim it into the registry.
fn claim(registry: &mut Registry, prefix: &str, a: StrategyArgs) -> Result<String, NameError> {
    let ns = claim_request(&some(prefix), &None, &a, &None)?;
    apply_claim(registry, ns)
}

/// The admin face's logic: the exact grant, then the change.
fn administer(registry: &mut Registry, prefix: &str, cap: &Capability, action: AdminAction) -> Result<String, NameError> {
    let prefix = required(&some(prefix), "prefix")?;
    require_admin(cap, &prefix)?;
    admin_apply(registry, &prefix, &action)
}

#[test]
fn a_claim_records_the_namespace_and_defaults_the_owner() {
    let mut registry = empty();
    let out = claim(
        &mut registry,
        "resmud",
        args(Some("hosted"), Some("urn:file:resmud-vocab"), None, None),
    )
    .expect("claims");
    assert!(out.contains("urn:cap:name:admin:resmud"), "got: {out}");
    assert_eq!(registry.namespaces.len(), 1);
    assert_eq!(registry.namespaces[0].owner, "urn:cap:name:admin:resmud");
}

#[test]
fn a_conflicting_claim_is_refused_and_writes_nothing() {
    let mut registry = one();
    let err = claim(
        &mut registry,
        "resmud/core",
        args(Some("redirect"), None, Some("https://example.test/"), None),
    )
    .expect_err("overlaps");
    assert!(matches!(err, NameError::Denied(ref m) if m.contains("resmud")), "names the claim: {err:?}");
    assert_eq!(registry.namespaces.len(), 1, "registry unchanged");
}

#[test]
fn a_strategy_missing_its_companion_argument_is_refused() {
    let err = strategy_from_args(&args(Some("redirect"), None, None, None))
        .expect_err("redirect needs a target");
    assert!(
        matches!(err, NameError::MissingArgument(ref a) if a == "target"),
        "got: {err:?}"
    );
}

#[test]
fn an_unknown_strategy_lists_the_real_ones() {
    let err = strategy_from_args(&args(Some("teleport"), None, None, None))
        .expect_err("no such strategy");
    assert_eq!(
        err,
        NameError::InvalidArgument {
            name: "strategy".into(),
            detail: "unknown strategy \"teleport\" (hosted, redirect, mirror)".into()
        }
    );
}

#[test]
fn the_owner_can_change_how_a_namespace_resolves() {
    let mut registry = one();
    administer(
        &mut registry,
        "resmud",
        &owner_of("resmud"),
        AdminAction::Update(args(Some("redirect"), None, Some("https://resmud.example/ns"), None)),
    )
    .expect("updates");
    assert_eq!(
        registry.namespaces[0].strategy,
        Strategy::Redirect {
            target: "https://resmud.example/ns".into()
        }
    );
}

#[test]
fn another_tenants_admin_capability_does_not_reach_this_namespace() {
    let mut registry = one();
    let err = administer(
        &mut registry,
        "resmud",
        &owner_of("acme"),
        AdminAction::Update(args(Some("redirect"), None, Some("https://attacker.example/"), None)),
    )
    .expect_err("not their namespace");
    assert!(matches!(err, NameError::Denied(_)), "got: {err:?}");
    assert!(
        matches!(err, NameError::Denied(ref m) if m.contains("urn:cap:name:admin:resmud")),
        "names the capability needed: {err:?}"
    );
    assert_eq!(
        registry.namespaces[0].strategy,
        Strategy::Hosted {
            source: "urn:file:resmud-vocab".into()
        },
        "the registry must be untouched"
    );
}

#[test]
fn the_claim_capability_does_not_confer_administration() {
    let mut registry = one();
    let err = administer(
        &mut registry,
        "resmud",
        &claimant(),
        AdminAction::Update(args(Some("mirror"), None, None, Some("https://elsewhere.example/"))),
    )
    .expect_err("claim is not admin");
    assert!(matches!(err, NameError::Denied(_)), "got: {err:?}");
}

#[test]
fn delete_retires_a_namespace_rather_than_removing_it() {
    let mut registry = one();
    let out = administer(
        &mut registry,
        "resmud",
        &owner_of("resmud"),
        AdminAction::Retire { reason: some("project ended") },
    )
    .expect("retires");
    assert!(out.contains("project ended"), "got: {out}");
    assert_eq!(registry.namespaces.len(), 1, "the claim must survive");
    assert_eq!(
        registry.namespaces[0].strategy,
        Strategy::Retired {
            reason: "project ended".into()
        }
    );
}

#[test]
fn a_retired_prefix_cannot_be_reclaimed() {
    let mut registry = one();
    administer(&mut registry, "resmud", &owner_of("resmud"), AdminAction::Retire { reason: None })
        .expect("retires");
    let err = claim(
        &mut registry,
        "resmud",
        args(Some("redirect"), None, Some("https://someone-else.example/"), None),
    )
    .expect_err("still claimed");
    assert!(matches!(err, NameError::Denied(_)), "got: {err:?}");
}

#[test]
fn a_retired_namespace_resolves_as_a_permanent_absence_that_explains_itself() {
    let mut registry = one();
    administer(
        &mut registry,
        "resmud",
        &owner_of("resmud"),
        AdminAction::Retire { reason: some("superseded") },
    )
    .expect("retires");
    let err = resolve_answer(&registry, "resmud/core").expect_err("retired");
    assert!(matches!(err, NameError::NotFound(ref m) if m.contains("superseded")), "got: {err:?}");
}

#[test]
fn retirement_cannot_be_set_as_a_strategy() {
    let mut registry = one();
    let err = administer(
        &mut registry,
        "resmud",
        &owner_of("resmud"),
        AdminAction::Update(args(Some("retired"), None, None, None)),
    )
    .expect_err("not this way");
    assert!(
        matches!(err, NameError::InvalidArgument { ref detail, .. } if detail.contains("Delete")),
        "points at the verb: {err:?}"
    );
}

#[test]
fn administering_an_unclaimed_namespace_is_not_found() {
    let mut registry = empty();
    let err = administer(
        &mut registry,
        "ghost",
        &owner_of("ghost"),
        AdminAction::Update(args(Some("hosted"), Some("urn:file:x"), None, None)),
    )
    .expect_err("nothing to administer");
    assert!(matches!(err, NameError::NotFound(_)), "got: {err:?}");
}

// --- further cases ---------------------------------------------------------

#[test]
fn a_retirement_without_a_reason_says_withdrawn() {
    let mut registry = one();
    let out = admin_apply(&mut registry, "resmud", &AdminAction::Retire { reason: None })
        .expect("retires");
    assert_eq!(out, "retired resmud\twithdrawn\n");
    assert_eq!(registry.namespaces[0].owner, "urn:cap:name:admin:resmud");
}

#[test]
fn an_update_reports_the_prefix() {
    let mut registry = one();
    let out = admin_apply(
        &mut registry,
        "resmud",
        &AdminAction::Update(args(Some(" mirror "), None, None, Some(" https://m.example/ "))),
    )
    .expect("updates");
    assert_eq!(out, "updated resmud\n");
    assert_eq!(
        registry.namespaces[0].strategy,
        Strategy::Mirror {
            origin: "https://m.example/".into()
        }
    );
}

#[test]
fn administration_matches_the_prefix_exactly() {
    let mut registry = one();
    let err = admin_apply(&mut registry, "resmud/core", &AdminAction::Retire { reason: None })
        .expect_err("only the exact prefix is administered");
    assert_eq!(err, NameError::NotFound("name: no namespace claims \"resmud/core\"".into()));
}

#[test]
fn the_gate_names_the_exact_grant() {
    assert_eq!(admin_gate(true, "acme"), Ok(()));
    assert_eq!(
        admin_gate(false, "acme"),
        Err(NameError::Denied(
            "name: administering \"acme\" needs `urn:cap:name:admin:acme`".into()
        ))
    );
    assert_eq!(require_admin(&Capability::root(), "acme"), Ok(()));
}

#[test]
fn a_claim_states_who_owns_it() {
    let ns = claim_request(
        &some(" acme "),
        &None,
        &args(Some("redirect"), None, Some("https://acme.example/ns"), None),
        &some(" urn:cap:name:admin:operator "),
    )
    .expect("well formed");
    assert_eq!(ns.prefix, "acme");
    assert_eq!(ns.owner, "urn:cap:name:admin:operator");
    let mut registry = empty();
    assert_eq!(
        apply_claim(&mut registry, ns),
        Ok("claimed acme\turn:cap:name:admin:operator\n".into())
    );
}

#[test]
fn blank_or_absent_arguments_are_missing() {
    assert_eq!(required(&None, "prefix"), Err(NameError::MissingArgument("prefix".into())));
    assert_eq!(required(&some(" \t\n"), "prefix"), Err(NameError::MissingArgument("prefix".into())));
    assert_eq!(required(&some("  x "), "prefix"), Ok("x".into()));
    assert_eq!(
        strategy_from_args(&args(None, Some("s"), None, None)),
        Err(NameError::MissingArgument("strategy".into()))
    );
    assert_eq!(
        strategy_from_args(&args(Some("hosted"), Some(" urn:file:v "), None, None)),
        Ok(Strategy::Hosted { source: "urn:file:v".into() })
    );
    assert_eq!(
        strategy_from_args(&args(Some("mirror"), None, None, None)),
        Err(NameError::MissingArgument("origin".into()))
    );
}

#[test]
fn claim_refusals_become_typed_errors() {
    assert_eq!(
        claim_error("", ClaimError::Empty),
        NameError::InvalidArgument {
            name: "prefix".into(),
            detail: "a namespace prefix cannot be empty".into()
        }
    );
    assert_eq!(
        claim_error("resmud/core", ClaimError::Overlaps("resmud".into())),
        NameError::Denied("name: \"resmud/core\" overlaps the claimed namespace \"resmud\"".into())
    );
    let mut registry = empty();
    assert_eq!(
        claim(&mut registry, "///", args(Some("hosted"), Some("urn:x"), None, None)),
        Err(NameError::InvalidArgument {
            name: "prefix".into(),
            detail: "a namespace prefix cannot be empty".into()
        })
    );
}

/// The kernel's error for a library refusal, as the faces map it.
fn kernel_error(e: NameError) -> ikigai_core::Error {
    match e {
        NameError::MissingArgument(name) => ikigai_core::Error::MissingArgument(name),
        NameError::InvalidArgument { name, detail } => {
            ikigai_core::Error::InvalidArgument { name, detail }
        }
        NameError::Denied(m) => ikigai_core::Error::Denied(m),
        NameError::NotFound(m) => ikigai_core::Error::NotFound(m),
        NameError::Endpoint(m) => ikigai_core::Error::Endpoint(m),
    }
}

#[test]
fn a_claim_overlapping_a_prefix_is_refused_typed() {
    let mut registry = Registry {
        namespaces: vec![
            Namespace {
                prefix: "resmud".into(),
                owner: "urn:cap:name:admin:resmud".into(),
                strategy: Strategy::Hosted {
                    source: "urn:conformance:vocab".into(),
                },
            },
            Namespace {
                prefix: "acme".into(),
                owner: "urn:cap:name:admin:acme".into(),
                strategy: Strategy::Redirect {
                    target: "https://acme.example/ns".into(),
                },
            },
        ],
        limits: Limits::default(),
    };
    let elsewhere = || args(Some("redirect"), None, Some("https://elsewhere.example/"), None);

    let answer = resolve_answer(&registry, "resmud/core").unwrap();
    assert_eq!(answer, "resmud\thosted\turn:conformance:vocab\n");

    for overlapping in ["resmud", "resmud/core", "/resmud/", "acme/vocab/deep"] {
        let err = kernel_error(claim(&mut registry, overlapping, elsewhere()).expect_err(overlapping));
        assert!(matches!(err, ikigai_core::Error::Denied(_)), "{overlapping}: {err:?}");
        assert!(
            !err.is_transient(),
            "{overlapping}: permanent, retrying cannot help"
        );
        let held = if overlapping.starts_with("acme") {
            "acme"
        } else {
            "resmud"
        };
        assert!(
            err.to_string().contains(&format!("{held:?}")),
            "{overlapping}: names the claim in the way: {err}"
        );
    }
    assert_eq!(registry.namespaces.len(), 2);

    registry.namespaces.push(Namespace {
        prefix: "org/unit".into(),
        owner: "urn:cap:name:admin:org-unit".into(),
        strategy: Strategy::Retired {
            reason: "ended".into(),
        },
    });
    let err = kernel_error(claim(&mut registry, "org", elsewhere()).expect_err("a parent of a held (retired!) prefix"));
    assert!(matches!(err, ikigai_core::Error::Denied(_)), "{err:?}");
    assert!(err.to_string().contains("\"org/unit\""), "{err}");

    claim(&mut registry, "resmudx", elsewhere()).expect("shares letters, not segments");
    assert_eq!(registry.namespaces.len(), 4);

    assert_eq!(resolve_answer(&registry, "resmud/core").unwrap(), answer);
    assert!(resolve_answer(&registry, "resmudx/thing")
        .unwrap()
        .starts_with("resmudx\tredirect\t"));
    assert!(matches!(resolve_answer(&registry, "org").unwrap_err(), NameError::NotFound(_)));
}

#[test]
fn a_piped_prefix_stands_in_for_prefix() {
    assert_eq!(prefix_arg(&None, &some("piped\n")), Ok("piped".into()));
    assert_eq!(prefix_arg(&some(" acme "), &some("ghost")), Ok("acme".into()), "by name wins");
    assert_eq!(prefix_arg(&None, &None), Err(NameError::MissingArgument("prefix".into())));
    assert_eq!(prefix_arg(&None, &some("  ")), Err(NameError::MissingArgument("prefix".into())));
    assert_eq!(
        prefix_arg(&some(" "), &some("acme")),
        Err(NameError::MissingArgument("prefix".into())),
        "a blank named prefix is not replaced by the pipe"
    );
}

#[test]
fn claim_and_admin_read_a_piped_prefix() {
    let mut registry = empty();
    let ns = claim_request(
        &None,
        &some("piped\n"),
        &args(Some("redirect"), None, Some("https://piped.example/"), None),
        &None,
    )
    .expect("piped prefix");
    assert_eq!(
        apply_claim(&mut registry, ns),
        Ok("claimed piped\turn:cap:name:admin:piped\n".into())
    );
    assert_eq!(registry.namespaces.len(), 1);

    let owner = owner_of("piped");
    let prefix = prefix_arg(&None, &some("piped")).expect("piped");
    require_admin(&owner, &prefix).expect("the owner's grant");
    assert_eq!(
        admin_apply(
            &mut registry,
            &prefix,
            &AdminAction::Update(args(Some("mirror"), None, None, Some("https://piped.example/")))
        ),
        Ok("updated piped\n".into())
    );
    assert_eq!(
        admin_apply(&mut registry, &prefix, &AdminAction::Retire { reason: some("done") }),
        Ok("retired piped\tdone\n".into())
    );

    // By name wins over the pipe: `ghost` is read, and nobody claims it.
    let named = prefix_arg(&some("ghost"), &some("piped")).expect("named");
    let ghost_owner = owner_of("ghost");
    require_admin(&ghost_owner, &named).expect("ghost's own grant");
    assert!(matches!(
        admin_apply(&mut registry, &named, &AdminAction::Retire { reason: None }),
        Err(NameError::NotFound(_))
    ));
}

#[test]
fn the_exact_grant_is_required_not_the_wildcard() {
    let wildcard = Capability::scoped(["urn:cap:name:admin:*"]);
    assert!(matches!(require_admin(&wildcard, "acme"), Err(NameError::Denied(_))));
    assert!(matches!(require_admin(&owner_of("acmecorp"), "acme"), Err(NameError::Denied(_))));
    assert!(matches!(require_admin(&owner_of("acme/vocab"), "acme"), Err(NameError::Denied(_))));
    assert_eq!(require_admin(&owner_of("acme"), "acme"), Ok(()));
}
