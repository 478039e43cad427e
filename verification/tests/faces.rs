use ikigai_core::Capability;
use ikigai_name::admin::{
    admin_apply, apply_claim, claim_request, prefix_arg, require_admin, AdminAction, StrategyArgs,
};
use ikigai_name::docs::{docs_graph, docs_prefix};
use ikigai_name::document::{after_fetch, document_path, document_step, no_conversion, wanted_type};
use ikigai_name::registry::Limits;
use ikigai_name::resolve::{path_arg, registry_refusal, resolve_answer};
use ikigai_name::{
    admin_scope, LoadError, NameError, Namespace, Registry, Strategy, REGISTRY_IRI,
};

const VOCAB_IRI: &str = "urn:conformance:vocab";

/// Two namespaces: one hosted, one redirect.
const REGISTRY_JSON: &str = r#"{"namespaces":[
  {"prefix":"resmud","owner":"urn:cap:name:admin:resmud","strategy":"hosted","source":"urn:conformance:vocab"},
  {"prefix":"acme","owner":"urn:cap:name:admin:acme","strategy":"redirect","target":"https://acme.example/ns"}
]}"#;

/// The registry `REGISTRY_JSON` describes.
fn world() -> Registry {
    Registry::from_entries(
        vec![
            Namespace {
                prefix: "resmud".into(),
                owner: "urn:cap:name:admin:resmud".into(),
                strategy: Strategy::Hosted { source: VOCAB_IRI.into() },
            },
            Namespace {
                prefix: "acme".into(),
                owner: "urn:cap:name:admin:acme".into(),
                strategy: Strategy::Redirect { target: "https://acme.example/ns".into() },
            },
        ],
        Limits::default(),
    )
    .expect("well formed")
}

fn owner_of(prefix: &str) -> Capability {
    Capability::scoped([admin_scope(prefix)])
}

fn arg(args: &[(&str, &str)], name: &str) -> Option<String> {
    args.iter().find(|(n, _)| *n == name).map(|(_, v)| v.to_string())
}

fn strategy_args(args: &[(&str, &str)]) -> StrategyArgs {
    StrategyArgs {
        strategy: arg(args, "strategy"),
        source: arg(args, "source"),
        target: arg(args, "target"),
        origin: arg(args, "origin"),
    }
}

fn resolve(registry: &Registry, args: &[(&str, &str)]) -> Result<String, NameError> {
    let path = path_arg(&arg(args, "path"), &arg(args, "content"))?;
    resolve_answer(registry, &path)
}

/// The document face's decisions, with a stored Turtle document.
fn document(registry: &Registry, args: &[(&str, &str)]) -> Result<String, NameError> {
    let path = document_path(&None, &arg(args, "path"), &arg(args, "content"))?;
    let wanted = wanted_type(&arg(args, "as"));
    match document_step(registry, &path, &wanted)? {
        ikigai_name::document::DocumentStep::Fetch { source } => {
            match after_fetch(&path, registry.limits, 64, "text/turtle", &wanted)? {
                ikigai_name::document::Delivery::Serve => Ok(source),
                ikigai_name::document::Delivery::Convert { have } => Err(no_conversion(&have, &wanted)),
            }
        }
        ikigai_name::document::DocumentStep::RenderDocs { prefix } => Ok(prefix),
    }
}

fn docs(registry: &Registry, args: &[(&str, &str)]) -> Result<String, NameError> {
    let prefix = docs_prefix(&arg(args, "prefix"))?;
    docs_graph(registry, &prefix)
}

fn claim(registry: &mut Registry, args: &[(&str, &str)]) -> Result<String, NameError> {
    let ns = claim_request(
        &arg(args, "prefix"),
        &arg(args, "content"),
        &strategy_args(args),
        &arg(args, "owner"),
    )?;
    apply_claim(registry, ns)
}

fn admin(
    registry: &mut Registry,
    delete: bool,
    args: &[(&str, &str)],
    cap: &Capability,
) -> Result<String, NameError> {
    let prefix = prefix_arg(&arg(args, "prefix"), &arg(args, "content"))?;
    require_admin(cap, &prefix)?;
    let action = if delete {
        AdminAction::Retire { reason: arg(args, "reason") }
    } else {
        AdminAction::Update(strategy_args(args))
    };
    admin_apply(registry, &prefix, &action)
}

#[test]
fn required_inputs_are_required() {
    let mut w = world();
    let before = w.clone();
    let missing = |err: NameError, expected: &str| {
        assert!(
            matches!(&err, NameError::MissingArgument(name) if name == expected),
            "without `{expected}`: {err:?}"
        );
    };
    missing(resolve(&w, &[]).unwrap_err(), "path");
    missing(document(&w, &[("as", "text/turtle")]).unwrap_err(), "path");
    missing(docs(&w, &[("theme", "dark")]).unwrap_err(), "prefix");
    missing(claim(&mut w, &[("strategy", "hosted"), ("source", VOCAB_IRI)]).unwrap_err(), "prefix");
    missing(claim(&mut w, &[("prefix", "example"), ("source", VOCAB_IRI)]).unwrap_err(), "strategy");
    missing(claim(&mut w, &[("prefix", "example"), ("strategy", "hosted")]).unwrap_err(), "source");
    missing(
        admin(&mut w, false, &[("strategy", "mirror"), ("origin", "https://x.example/")], &owner_of("acme"))
            .unwrap_err(),
        "prefix",
    );
    missing(admin(&mut w, false, &[("prefix", "acme")], &owner_of("acme")).unwrap_err(), "strategy");
    missing(admin(&mut w, true, &[("reason", "ended")], &owner_of("acme")).unwrap_err(), "prefix");
    assert_eq!(w, before, "a call refused for a missing input writes nothing");

    // Optional means optional: no `owner`, no `reason`.
    let out = claim(
        &mut w,
        &[("prefix", "example"), ("strategy", "hosted"), ("source", VOCAB_IRI)],
    )
    .unwrap();
    assert_eq!(out, "claimed example\turn:cap:name:admin:example\n");
    let out = admin(&mut w, true, &[("prefix", "acme")], &owner_of("acme")).unwrap();
    assert_eq!(out, "retired acme\twithdrawn\n");

    // The pipe's spelling: `content` where `path` or `prefix` would be.
    assert_eq!(
        resolve(&w, &[("content", "resmud/core\n")]).unwrap(),
        format!("resmud\thosted\t{VOCAB_IRI}\n")
    );
    assert_eq!(document(&w, &[("content", "resmud/core")]).unwrap(), VOCAB_IRI);
    assert_eq!(
        claim(
            &mut w,
            &[("content", "piped\n"), ("strategy", "redirect"), ("target", "https://piped.example/")]
        )
        .unwrap(),
        "claimed piped\turn:cap:name:admin:piped\n"
    );
    assert_eq!(
        admin(
            &mut w,
            false,
            &[("content", "piped"), ("strategy", "mirror"), ("origin", "https://piped.example/")],
            &owner_of("piped")
        )
        .unwrap(),
        "updated piped\n"
    );
    assert_eq!(
        admin(&mut w, true, &[("content", "piped"), ("reason", "done")], &owner_of("piped")).unwrap(),
        "retired piped\tdone\n"
    );
    // By name wins over the pipe when both are present.
    let err = admin(&mut w, true, &[("prefix", "ghost"), ("content", "acme")], &owner_of("ghost"))
        .unwrap_err();
    assert!(matches!(err, NameError::NotFound(_)), "`prefix` was read, not `content`: {err:?}");
}

#[test]
fn the_gates_are_the_exact_scopes() {
    let mut w = world();
    let before = w.clone();
    let claim_args = [("prefix", "example"), ("strategy", "hosted"), ("source", VOCAB_IRI)];
    let admin_args = [("prefix", "acme"), ("strategy", "mirror"), ("origin", "https://x.example/")];

    // Some admin grant, but for another namespace: refused here, naming the
    // exact scope. Holding one namespace confers nothing over another.
    for delete in [false, true] {
        let err = admin(&mut w, delete, &admin_args, &owner_of("resmud"))
            .err()
            .unwrap_or_else(|| panic!("admin resolved under resmud's grant"));
        assert!(matches!(err, NameError::Denied(_)), "{err:?}");
        let NameError::Denied(text) = err else { unreachable!() };
        assert!(text.contains("urn:cap:name:admin:acme"), "names the scope needed: {text}");
    }
    assert_eq!(w, before, "no refused call reached the store");

    // The right grants, and nothing wider, do the work.
    claim(&mut w, &claim_args).unwrap();
    admin(&mut w, false, &admin_args, &owner_of("acme")).unwrap();
    assert_eq!(w.namespaces.len(), 3);
    assert_eq!(
        w.namespaces[1].strategy,
        Strategy::Mirror { origin: "https://x.example/".into() }
    );
}

#[test]
fn errors_carry_no_registry_body() {
    let mut w = world();
    let body = REGISTRY_JSON;
    let leaks = |err: NameError| {
        let text = format!("{err:?}");
        assert!(!text.contains(body), "the registry body is echoed: {text}");
    };
    leaks(resolve(&w, &[("path", "nobody/here")]).unwrap_err());
    leaks(docs(&w, &[("prefix", "acme")]).unwrap_err());
    leaks(document(&w, &[("path", "acme/thing")]).unwrap_err());
    leaks(document(&w, &[("path", "resmud/core"), ("as", "image/png")]).unwrap_err());
    leaks(claim(&mut w, &[("prefix", "resmud/x"), ("strategy", "hosted"), ("source", "urn:x")]).unwrap_err());
    leaks(claim(&mut w, &[("prefix", "new"), ("strategy", "teleport")]).unwrap_err());
    leaks(admin(&mut w, false, &[("prefix", "acme"), ("strategy", "retired")], &owner_of("acme")).unwrap_err());
    leaks(
        admin(
            &mut w,
            false,
            &[("prefix", "ghost"), ("strategy", "hosted"), ("source", "urn:x")],
            &owner_of("ghost"),
        )
        .unwrap_err(),
    );

    // The registry itself malformed: the error names the resource to open, not
    // its contents.
    let garbage = "{ \"namespaces\": [ { \"prefix\": \"secret-tenant\" ";
    let why = serde_json::from_str::<serde_json::Value>(garbage).unwrap_err().to_string();
    let NameError::Endpoint(text) = registry_refusal(&LoadError::Malformed(why)) else {
        panic!("an endpoint failure")
    };
    assert!(text.contains(REGISTRY_IRI), "names the resource: {text}");
    assert!(!text.contains("secret-tenant"), "echoes the body: {text}");
    assert!(!text.contains(garbage), "echoes the body: {text}");
}

#[test]
fn lookup_does_not_depend_on_the_order_of_entries() {
    let w = world();
    let mut reversed = w.clone();
    reversed.namespaces.reverse();
    for path in ["resmud/core", "acme/thing", "resmud", "nobody/here", "acmecorp"] {
        assert_eq!(w.lookup(path), reversed.lookup(path), "{path}");
    }
}
