//! The standalone server's command line: flags and a config root only.

use vstd::prelude::*;
use vstd::string::*;
use crate::text::same;

verus! {

/// What the server was told to do, before its address is parsed.
#[derive(Debug, Clone, PartialEq, Eq)]
pub struct ServerOptions {
    /// The address to bind, as written.
    pub listen: String,
    /// The directory `urn:file:*` resolves within, and the jail.
    pub root: String,
    /// The registry file within the root.
    pub registry: String,
    /// Whether file reads are cached.
    pub cache_files: bool,
}

/// Why the command line is refused.
#[derive(Debug, Clone, PartialEq, Eq)]
pub enum OptionsError {
    /// Help was asked for, or a flag was missing its value: print usage.
    Usage,
    /// An option nobody defined; print it, then usage.
    Unknown(String),
}

/// Options, as characters.
pub ghost struct OptionsView {
    /// The address to bind.
    pub listen: Seq<char>,
    /// The root directory.
    pub root: Seq<char>,
    /// The registry file.
    pub registry: Seq<char>,
    /// Whether file reads are cached.
    pub cache_files: bool,
}

/// A refusal, as characters: `None` for usage, or the unknown option.
pub open spec fn error_view(e: OptionsError) -> Option<Seq<char>> {
    match e {
        OptionsError::Usage => None,
        OptionsError::Unknown(o) => Some(o@),
    }
}

/// The defaults: `127.0.0.1:8080`, the current directory, `registry.json`,
/// no file cache.
pub open spec fn default_options() -> OptionsView {
    OptionsView {
        listen: "127.0.0.1:8080"@,
        root: "."@,
        registry: "registry.json"@,
        cache_files: false,
    }
}

/// The options `args` set over `st`, read left to right. A flag missing its
/// value is a hard stop rather than a silent default.
pub open spec fn options_after(args: Seq<Seq<char>>, st: OptionsView) -> Result<
    OptionsView,
    Option<Seq<char>>,
>
    decreases args.len(),
{
    if args.len() == 0 {
        Ok(st)
    } else {
        let flag = args[0];
        if flag == "--listen"@ || flag == "--root"@ || flag == "--registry"@ {
            if args.len() < 2 {
                Err(None)
            } else {
                let v = args[1];
                let next = if flag == "--listen"@ {
                    OptionsView { listen: v, ..st }
                } else if flag == "--root"@ {
                    OptionsView { root: v, ..st }
                } else {
                    OptionsView { registry: v, ..st }
                };
                options_after(args.skip(2), next)
            }
        } else if flag == "--cache-files"@ {
            options_after(args.skip(1), OptionsView { cache_files: true, ..st })
        } else if flag == "-h"@ || flag == "--help"@ {
            Err(None)
        } else {
            Err(Some(flag))
        }
    }
}

/// Options, as characters.
pub open spec fn options_view(o: ServerOptions) -> OptionsView {
    OptionsView {
        listen: o.listen@,
        root: o.root@,
        registry: o.registry@,
        cache_files: o.cache_files,
    }
}

/// The characters of each argument.
pub open spec fn arg_views(args: Seq<String>) -> Seq<Seq<char>> {
    args.map_values(|a: String| a@)
}

/// Read the command line (without the program name).
pub fn parse_options(args: &Vec<String>) -> (r: Result<ServerOptions, OptionsError>)
    ensures
        match r {
            Ok(o) => options_after(arg_views(args@), default_options()) == Ok::<
                OptionsView,
                Option<Seq<char>>,
            >(options_view(o)),
            Err(e) => options_after(arg_views(args@), default_options()) == Err::<
                OptionsView,
                Option<Seq<char>>,
            >(error_view(e)),
        },
{
    let mut st = ServerOptions {
        listen: String::from_str("127.0.0.1:8080"),
        root: String::from_str("."),
        registry: String::from_str("registry.json"),
        cache_files: false,
    };
    let ghost all = arg_views(args@);
    let mut i: usize = 0;
    assert(all.skip(0) =~= all);
    while i < args.len()
        invariant
            all == arg_views(args@),
            i <= args@.len(),
            options_after(all, default_options()) == options_after(all.skip(i as int), options_view(st)),
        decreases args@.len() - i,
    {
        let flag = args[i].as_str();
        let ghost rest = all.skip(i as int);
        assert(rest[0] == flag@);
        let is_listen = same(flag, "--listen");
        let is_root = same(flag, "--root");
        let is_registry = same(flag, "--registry");
        if is_listen || is_root || is_registry {
            if i + 1 >= args.len() {
                return Err(OptionsError::Usage);
            }
            let value = args[i + 1].clone();
            assert(rest[1] == value@);
            if is_listen {
                st.listen = value;
            } else if is_root {
                st.root = value;
            } else {
                st.registry = value;
            }
            assert(rest.skip(2) =~= all.skip(i + 2));
            i = i + 2;
        } else if same(flag, "--cache-files") {
            st.cache_files = true;
            assert(rest.skip(1) =~= all.skip(i + 1));
            i = i + 1;
        } else if same(flag, "-h") || same(flag, "--help") {
            return Err(OptionsError::Usage);
        } else {
            return Err(OptionsError::Unknown(String::from_str(flag)));
        }
    }
    Ok(st)
}

} // verus!
