use ikigai_name::registry::Limits;
use ikigai_name::resolve::{path_arg, registry_refusal, resolve_answer, resolve_path};
use ikigai_name::{LoadError, NameError, Namespace, Registry, Strategy, REGISTRY_IRI};

fn ns(prefix: &str, strategy: Strategy) -> Namespace {
    Namespace {
        prefix: prefix.into(),
        owner: format!("urn:cap:name:admin:{prefix}"),
        strategy,
    }
}

fn registry() -> Registry {
    Registry::from_entries(
        vec![
            ns("resmud", Strategy::Hosted { source: "urn:file:resmud-vocab".into() }),
            ns("acme", Strategy::Redirect { target: "https://acme.example/ns".into() }),
        ],
        Limits::default(),
    )
    .expect("well formed")
}

/// The resolve face's logic: read the path, then answer for it.
fn resolve(path: Option<&str>, content: Option<&str>) -> Result<String, NameError> {
    let path = path_arg(&path.map(str::to_string), &content.map(str::to_string))?;
    resolve_answer(&registry(), &path)
}

#[test]
fn a_hosted_namespace_resolves_to_its_source() {
    let out = resolve(Some("resmud/core"), None).expect("resolves");
    assert_eq!(out, "resmud\thosted\turn:file:resmud-vocab\n");
}

#[test]
fn a_redirected_namespace_resolves_to_its_target() {
    let out = resolve(Some("acme/thing"), None).expect("resolves");
    assert_eq!(out, "acme\tredirect\thttps://acme.example/ns\n");
}

#[test]
fn lib_an_unclaimed_path_is_not_found() {
    let err = resolve(Some("nobody/here"), None).expect_err("nothing claims it");
    assert!(
        matches!(err, NameError::NotFound(_)),
        "want a permanent NotFound, got: {err:?}"
    );
    assert!(
        matches!(err, NameError::NotFound(ref m) if m.contains("nobody/here")),
        "names the path: {err:?}"
    );
}

#[test]
fn nothing_resolves_from_a_registry_with_overlapping_prefixes() {
    let refused = Registry::from_entries(
        vec![
            ns("resmud", Strategy::Hosted { source: "urn:file:resmud-vocab".into() }),
            ns("resmud/core", Strategy::Redirect { target: "https://resmud.example/core".into() }),
            ns("acme", Strategy::Redirect { target: "https://acme.example/ns".into() }),
        ],
        Limits::default(),
    )
    .expect_err("a refused registry serves nothing");
    let err = registry_refusal(&refused);
    assert!(
        matches!(&err, NameError::Endpoint(m) if m.contains("\"resmud/core\"") && m.contains("\"resmud\"")),
        "want the load refusal naming both prefixes, got: {err:?}"
    );
}

#[test]
fn the_claimed_prefix_itself_resolves() {
    let out = resolve(Some("resmud"), None).expect("resolves");
    assert!(out.starts_with("resmud\thosted"), "got: {out}");
}

#[test]
fn content_is_the_fallback_for_path() {
    let out = resolve(None, Some("resmud/core\n")).expect("resolves");
    assert_eq!(out, "resmud\thosted\turn:file:resmud-vocab\n");
}

#[test]
fn a_malformed_registry_names_the_resource() {
    let err = registry_refusal(&LoadError::Malformed("expected value at line 1 column 3".into()));
    assert!(
        matches!(&err, NameError::Endpoint(m) if m.contains(REGISTRY_IRI)),
        "names the source: {err:?}"
    );
}

#[test]
fn resolve_with_no_path_names_the_missing_input() {
    let err = resolve(None, None).expect_err("no path");
    assert!(
        matches!(&err, NameError::MissingArgument(name) if name == "path"),
        "got: {err:?}"
    );
}

// --- further cases ---------------------------------------------------------

#[test]
fn a_mirror_resolves_to_its_origin_and_a_retirement_explains_itself() {
    let reg = Registry::from_entries(
        vec![
            ns("m", Strategy::Mirror { origin: "https://origin.example/".into() }),
            ns("gone", Strategy::Retired { reason: "ended".into() }),
        ],
        Limits::default(),
    )
    .expect("well formed");
    assert_eq!(resolve_answer(&reg, "m/x"), Ok("m\tmirror\thttps://origin.example/\n".into()));
    assert_eq!(
        resolve_answer(&reg, "gone/x"),
        Err(NameError::NotFound("name: \"gone\" is retired: ended".into()))
    );
    assert_eq!(
        resolve_path(&reg, "else").map(|n| n.prefix.clone()),
        Err(NameError::NotFound("name: no namespace claims \"else\"".into()))
    );
}

#[test]
fn the_registry_refusal_quotes_the_conflict() {
    let err = registry_refusal(&LoadError::Refused {
        prefix: "a/b".into(),
        reason: ikigai_name::ClaimError::Overlaps("a".into()),
    });
    assert_eq!(
        err,
        NameError::Endpoint(
            "name: urn:name:registry-source is not a valid registry: \"a/b\" overlaps the claimed namespace \"a\"".into()
        )
    );
}

#[test]
fn a_path_argument_wins_over_piped_content() {
    assert_eq!(path_arg(&Some(" a/b ".into()), &Some("c".into())), Ok("a/b".into()));
}
