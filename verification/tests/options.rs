use ikigai_name::options::{parse_options, OptionsError, ServerOptions};

fn parse(args: &[&str]) -> Result<ServerOptions, OptionsError> {
    parse_options(&args.iter().map(|a| a.to_string()).collect())
}

#[test]
fn the_defaults_bind_locally_and_read_registry_json() {
    assert_eq!(
        parse(&[]),
        Ok(ServerOptions {
            listen: "127.0.0.1:8080".into(),
            root: ".".into(),
            registry: "registry.json".into(),
            cache_files: false,
        })
    );
}

#[test]
fn every_flag_is_read() {
    assert_eq!(
        parse(&["--listen", "0.0.0.0:80", "--root", "/srv/ns", "--registry", "r.json", "--cache-files"]),
        Ok(ServerOptions {
            listen: "0.0.0.0:80".into(),
            root: "/srv/ns".into(),
            registry: "r.json".into(),
            cache_files: true,
        })
    );
}

#[test]
fn a_flag_missing_its_value_is_a_hard_stop() {
    assert_eq!(parse(&["--listen"]), Err(OptionsError::Usage));
    assert_eq!(parse(&["--help"]), Err(OptionsError::Usage));
    assert_eq!(parse(&["-h", "--nonsense"]), Err(OptionsError::Usage));
}

#[test]
fn an_unknown_option_is_named() {
    assert_eq!(
        parse(&["--root", "x", "--port", "1"]),
        Err(OptionsError::Unknown("--port".into()))
    );
}
