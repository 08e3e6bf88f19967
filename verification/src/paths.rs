//! Where the configuration, the Initializr catalogs and the saved dumps
//! live: the first two under the platform's configuration base, the dumps
//! under the user's home directory.

use vstd::prelude::*;

use crate::config::TsbConfig;
use crate::text::{alphanumeric, is_alphanumeric, owned, push_char, push_str};

verus! {

/// `base` joined with a relative path component: a `/` goes between them
/// unless `base` is empty or already ends with `/`.
pub open spec fn path_join_spec(base: Seq<char>, comp: Seq<char>) -> Seq<char> {
    if base.len() == 0 || base.last() == '/' {
        base + comp
    } else {
        base + "/"@ + comp
    }
}

/// `base` joined with a relative path component.
pub fn path_join(base: &str, comp: &str) -> (r: String)
    ensures
        r@ == path_join_spec(base@, comp@),
{
    let mut out = owned(base);
    let n = base.unicode_len();
    if n > 0 && base.get_char(n - 1) != '/' {
        push_str(&mut out, "/");
    }
    push_str(&mut out, comp);
    out
}

/// The platform's base for the configuration directory: the home
/// directory on Linux and macOS, the roaming application-data directory
/// (`%APPDATA%`) on Windows.
#[derive(Debug)]
pub enum ConfigRoot {
    Home(String),
    AppData(String),
}

/// The directory `tsb` keeps its files in under a home directory:
/// `<home>/.config/tsb`.
pub open spec fn home_config_spec(home: Seq<char>) -> Seq<char> {
    path_join_spec(path_join_spec(home, ".config"@), "tsb"@)
}

/// The configuration directory: `<home>/.config/tsb` on Linux and macOS,
/// `<appdata>/tsb` on Windows.
pub open spec fn config_dir_spec(root: ConfigRoot) -> Seq<char> {
    match root {
        ConfigRoot::Home(h) => home_config_spec(h@),
        ConfigRoot::AppData(a) => path_join_spec(a@, "tsb"@),
    }
}

fn config_dir_in(home: &str) -> (r: String)
    ensures
        r@ == home_config_spec(home@),
{
    let c = path_join(home, ".config");
    path_join(c.as_str(), "tsb")
}

fn config_dir_of(root: &ConfigRoot) -> (r: String)
    ensures
        r@ == config_dir_spec(*root),
{
    match root {
        ConfigRoot::Home(h) => config_dir_in(h.as_str()),
        ConfigRoot::AppData(a) => path_join(a.as_str(), "tsb"),
    }
}

impl TsbConfig {
    /// The configuration directory, when the platform's base is known.
    pub fn config_dir(root: &Option<ConfigRoot>) -> (r: Option<String>)
        ensures
            match *root {
                Some(b) => r matches Some(d) && d@ == config_dir_spec(b),
                None => r is None,
            },
    {
        match root {
            Some(b) => Some(config_dir_of(b)),
            None => None,
        }
    }

    /// The configuration file, `config.yaml` in the configuration directory,
    /// when the platform's base is known.
    pub fn config_path(root: &Option<ConfigRoot>) -> (r: Option<String>)
        ensures
            match *root {
                Some(b) => r matches Some(p) && p@ == path_join_spec(config_dir_spec(b), "config.yaml"@),
                None => r is None,
            },
    {
        match root {
            Some(b) => {
                let d = config_dir_of(b);
                Some(path_join(d.as_str(), "config.yaml"))
            },
            None => None,
        }
    }
}

/// A file in the configuration directory, or in the current directory
/// (`.`) when the platform's base is unknown.
pub open spec fn catalog_file_spec(root: Option<ConfigRoot>, name: Seq<char>) -> Seq<char> {
    match root {
        Some(b) => path_join_spec(config_dir_spec(b), name),
        None => path_join_spec("."@, name),
    }
}

fn catalog_file(root: &Option<ConfigRoot>, name: &str) -> (r: String)
    ensures
        r@ == catalog_file_spec(*root, name@),
{
    match root {
        Some(b) => {
            let d = config_dir_of(b);
            path_join(d.as_str(), name)
        },
        None => path_join(".", name),
    }
}

/// Where the Initializr metadata is kept: `initializr-metadata.json` in the
/// configuration directory.
pub fn initializr_metadata_path(root: &Option<ConfigRoot>) -> (r: String)
    ensures
        r@ == catalog_file_spec(*root, "initializr-metadata.json"@),
{
    catalog_file(root, "initializr-metadata.json")
}

/// Where the dependency catalog is kept: `dependencies.json` in the
/// configuration directory.
pub fn initializr_dependencies_path(root: &Option<ConfigRoot>) -> (r: String)
    ensures
        r@ == catalog_file_spec(*root, "dependencies.json"@),
{
    catalog_file(root, "dependencies.json")
}

/// The directory of saved dumps: `<home>/.config/tsb/dumps`, on every
/// platform.
pub open spec fn dumps_dir_spec(home: Seq<char>) -> Seq<char> {
    path_join_spec(home_config_spec(home), "dumps"@)
}

/// The directory of saved dumps, when the home directory is known.
pub fn dumps_dir(home: &Option<String>) -> (r: Option<String>)
    ensures
        match *home {
            Some(h) => r matches Some(d) && d@ == dumps_dir_spec(h@),
            None => r is None,
        },
{
    match home {
        Some(h) => {
            let d = config_dir_in(h.as_str());
            Some(path_join(d.as_str(), "dumps"))
        },
        None => None,
    }
}

/// An application's name made safe as a directory name: letters, digits,
/// `-` and `_` stay, any other character becomes `_`.
pub open spec fn sanitize_spec(name: Seq<char>) -> Seq<char> {
    name.map_values(|c: char| if alphanumeric(c) || c == '-' || c == '_' { c } else { '_' })
}

/// The directory name for an application's dumps: its sanitized name, or
/// `unknown` for an empty name.
pub open spec fn dump_dir_name_spec(name: Seq<char>) -> Seq<char> {
    if name.len() == 0 {
        "unknown"@
    } else {
        sanitize_spec(name)
    }
}

/// The directory name for an application's dumps.
pub fn dump_dir_name(app_name: &str) -> (r: String)
    ensures
        r@ == dump_dir_name_spec(app_name@),
{
    let mut out = String::new();
    let ghost chars = app_name@;
    for c in it: app_name.chars()
        invariant
            it.seq() == chars,
            out@ == sanitize_spec(chars.take(it.index() as int)),
    {
        let keep = is_alphanumeric(c) || c == '-' || c == '_';
        push_char(&mut out, if keep { c } else { '_' });
        proof {
            assert(sanitize_spec(chars.take(it.index() + 1)) =~= sanitize_spec(
                chars.take(it.index() as int),
            ).push(if keep { c } else { '_' }));
        }
    }
    proof {
        assert(chars.take(chars.len() as int) =~= chars);
    }
    if out.as_str().is_empty() {
        owned("unknown")
    } else {
        out
    }
}

/// The directory of an application's saved dumps, when the home directory
/// is known.
pub fn app_dumps_dir(home: &Option<String>, app_name: &str) -> (r: Option<String>)
    ensures
        match *home {
            Some(h) => r matches Some(d) && d@ == path_join_spec(
                dumps_dir_spec(h@),
                dump_dir_name_spec(app_name@),
            ),
            None => r is None,
        },
{
    match dumps_dir(home) {
        Some(d) => {
            let name = dump_dir_name(app_name);
            Some(path_join(d.as_str(), name.as_str()))
        },
        None => None,
    }
}

} // verus!
