//! Where the application keeps its files, resolved from XDG variables, and
//! which store path wins: the argument, then the environment, then the file,
//! then the data directory.
use vstd::prelude::*;

use crate::text::{chars_eq, chars_of, push_str_chars, string_of};

verus! {

pub const APP_DIR: &'static str = "mg-calr";
/// The variable that names the store's path.
pub const DB_PATH_ENV: &'static str = "MG_CALR_DB";
/// The store's file name inside the data directory.
pub const DEFAULT_DB_FILE: &'static str = "calr.sqlite";

/// Why the configuration could not be resolved.
#[derive(Debug, Clone, PartialEq, Eq)]
pub enum ConfigError {
    /// `HOME` is unset and an XDG base directory is missing.
    MissingHome,
    /// The configuration file exists and could not be read.
    Read { path: String, reason: String },
    /// The configuration file is not valid TOML.
    InvalidToml { message: String },
}

/// Every directory and file the application uses.
#[derive(Debug, Clone, PartialEq, Eq)]
pub struct ConfigPaths {
    pub config_dir: String,
    pub config_file: String,
    pub data_dir: String,
    pub state_dir: String,
    pub cache_dir: String,
}

/// The value of the first variable with this name.
pub open spec fn spec_lookup(vars: Seq<(Seq<char>, Seq<char>)>, key: Seq<char>) -> Option<Seq<char>>
    decreases vars.len(),
{
    if vars.len() == 0 {
        None
    } else if vars[0].0 == key {
        Some(vars[0].1)
    } else {
        spec_lookup(vars.drop_first(), key)
    }
}

pub open spec fn spec_vars(vars: Seq<(String, String)>) -> Seq<(Seq<char>, Seq<char>)> {
    vars.map_values(|v: (String, String)| (v.0@, v.1@))
}

/// A path with another joined onto it, as a Unix path joins: an absolute
/// part replaces the base, and one separator stands between the two.
pub open spec fn spec_join_path(base: Seq<char>, part: Seq<char>) -> Seq<char> {
    if part.len() > 0 && part[0] == '/' {
        part
    } else if base.len() > 0 && base.last() != '/' {
        base + seq!['/'] + part
    } else {
        base + part
    }
}

/// An XDG base directory: its variable, or the fallback under `HOME`.
pub open spec fn spec_base(vars: Seq<(Seq<char>, Seq<char>)>, key: Seq<char>, fallback: Seq<char>) -> Option<Seq<char>> {
    match spec_lookup(vars, key) {
        Some(v) => Some(v),
        None => match spec_lookup(vars, "HOME"@) {
            Some(home) => Some(spec_join_path(home, fallback)),
            None => None,
        },
    }
}

/// The application's directory under one XDG base.
pub open spec fn spec_app_dir(vars: Seq<(Seq<char>, Seq<char>)>, key: Seq<char>, fallback: Seq<char>) -> Option<Seq<char>> {
    match spec_base(vars, key, fallback) {
        Some(b) => Some(spec_join_path(b, APP_DIR@)),
        None => None,
    }
}

fn lookup(vars: &Vec<(String, String)>, key: &str) -> (r: Option<String>)
    ensures
        match spec_lookup(spec_vars(vars@), key@) {
            Some(v) => r matches Some(x) && x@ == v,
            None => r is None,
        },
{
    let want = chars_of(key);
    let ghost all = spec_vars(vars@);
    assert(all.subrange(0, all.len() as int) =~= all);
    let mut i: usize = 0;
    while i < vars.len()
        invariant
            i <= vars@.len(),
            all == spec_vars(vars@),
            want@ == key@,
            spec_lookup(all, key@) == spec_lookup(all.subrange(i as int, all.len() as int), key@),
        decreases vars.len() - i,
    {
        let ghost rest = all.subrange(i as int, all.len() as int);
        assert(rest[0] == (vars@[i as int].0@, vars@[i as int].1@));
        if chars_eq(chars_of(vars[i].0.as_str()).as_slice(), want.as_slice()) {
            return Some(vars[i].1.clone());
        }
        assert(rest.drop_first() =~= all.subrange(i + 1, all.len() as int));
        i += 1;
    }
    None
}

pub(crate) fn join_path(base: &str, part: &str) -> (r: String)
    ensures
        r@ == spec_join_path(base@, part@),
{
    let b = chars_of(base);
    let p = chars_of(part);
    if p.len() > 0 && p[0] == '/' {
        return string_of(p.as_slice());
    }
    let mut out = b;
    if out.len() > 0 && out[out.len() - 1] != '/' {
        out.push('/');
    }
    push_str_chars(&mut out, part);
    string_of(out.as_slice())
}

fn app_dir(vars: &Vec<(String, String)>, key: &str, fallback: &str) -> (r: Result<String, ConfigError>)
    ensures
        match spec_app_dir(spec_vars(vars@), key@, fallback@) {
            Some(d) => r matches Ok(x) && x@ == d,
            None => r == Err::<String, ConfigError>(ConfigError::MissingHome),
        },
{
    let base = match lookup(vars, key) {
        Some(v) => v,
        None => match lookup(vars, "HOME") {
            Some(home) => join_path(home.as_str(), fallback),
            None => return Err(ConfigError::MissingHome),
        },
    };
    Ok(join_path(base.as_str(), APP_DIR))
}

/// The application's directories under their XDG bases, each falling back to
/// its usual place under `HOME`, and the configuration file in the first.
pub open spec fn spec_paths_resolved(p: ConfigPaths, v: Seq<(Seq<char>, Seq<char>)>) -> bool {
    let config = spec_app_dir(v, "XDG_CONFIG_HOME"@, ".config"@);
    let data = spec_app_dir(v, "XDG_DATA_HOME"@, ".local/share"@);
    let state = spec_app_dir(v, "XDG_STATE_HOME"@, ".local/state"@);
    let cache = spec_app_dir(v, "XDG_CACHE_HOME"@, ".cache"@);
    &&& config matches Some(c) && p.config_dir@ == c && p.config_file@ == spec_join_path(c, "config.toml"@)
    &&& data matches Some(d) && p.data_dir@ == d
    &&& state matches Some(st) && p.state_dir@ == st
    &&& cache matches Some(ca) && p.cache_dir@ == ca
}

impl ConfigPaths {
    /// Resolve all application paths from XDG environment values; each base
    /// falls back to its usual place under `HOME`.
    pub fn from_env(vars: &Vec<(String, String)>) -> (r: Result<ConfigPaths, ConfigError>)
        ensures
            ({
                let v = spec_vars(vars@);
                let config = spec_app_dir(v, "XDG_CONFIG_HOME"@, ".config"@);
                let data = spec_app_dir(v, "XDG_DATA_HOME"@, ".local/share"@);
                let state = spec_app_dir(v, "XDG_STATE_HOME"@, ".local/state"@);
                let cache = spec_app_dir(v, "XDG_CACHE_HOME"@, ".cache"@);
                if config is Some && data is Some && state is Some && cache is Some {
                    r matches Ok(p) && spec_paths_resolved(p, v)
                } else {
                    r == Err::<ConfigPaths, ConfigError>(ConfigError::MissingHome)
                }
            }),
    {
        let config_dir = app_dir(vars, "XDG_CONFIG_HOME", ".config")?;
        let data_dir = app_dir(vars, "XDG_DATA_HOME", ".local/share")?;
        let state_dir = app_dir(vars, "XDG_STATE_HOME", ".local/state")?;
        let cache_dir = app_dir(vars, "XDG_CACHE_HOME", ".cache")?;
        let config_file = join_path(config_dir.as_str(), "config.toml");
        Ok(ConfigPaths { config_dir, config_file, data_dir, state_dir, cache_dir })
    }
}

/// What said where the store lives.
#[derive(Debug, Clone, Copy, PartialEq, Eq, Structural)]
pub enum ConfigSource {
    Cli,
    Environment,
    File,
    Default,
}

pub open spec fn spec_source_name(s: ConfigSource) -> Seq<char> {
    match s {
        ConfigSource::Cli => "Cli"@,
        ConfigSource::Environment => "Environment"@,
        ConfigSource::File => "File"@,
        ConfigSource::Default => "Default"@,
    }
}

/// Where the one SQLite file lives, and what said so.
#[derive(Debug, Clone)]
pub struct StoreSettings {
    pub path: String,
    pub source: ConfigSource,
}

impl StoreSettings {
    pub fn source(&self) -> (r: ConfigSource)
        ensures
            r == self.source,
    {
        self.source
    }

    pub fn path(&self) -> (r: &str)
        ensures
            r@ == self.path@,
    {
        self.path.as_str()
    }

    /// A description safe to print: a path this user already knows, and where it came from.
    pub fn safe_summary(&self) -> (r: String)
        ensures
            r@ == "SQLite store "@ + self.path@ + " ("@ + spec_source_name(self.source) + ")"@,
    {
        let mut out = chars_of("SQLite store ");
        push_str_chars(&mut out, self.path.as_str());
        push_str_chars(&mut out, " (");
        let name = match self.source {
            ConfigSource::Cli => "Cli",
            ConfigSource::Environment => "Environment",
            ConfigSource::File => "File",
            ConfigSource::Default => "Default",
        };
        push_str_chars(&mut out, name);
        push_str_chars(&mut out, ")");
        string_of(out.as_slice())
    }
}

/// The resolved configuration.
#[derive(Debug, Clone)]
pub struct AppConfig {
    pub paths: ConfigPaths,
    pub database: StoreSettings,
}

/// Resolve the complete configuration. `file_store_path` is what the
/// configuration file says of the store's path, or the reason the file is not
/// valid TOML.
pub fn resolve_config(
    vars: &Vec<(String, String)>,
    file_store_path: Result<Option<String>, String>,
    cli_store_path: Option<String>,
) -> (r: Result<AppConfig, ConfigError>)
    ensures
        ({
            let v = spec_vars(vars@);
            let data = spec_app_dir(v, "XDG_DATA_HOME"@, ".local/share"@);
            if spec_app_dir(v, "XDG_CONFIG_HOME"@, ".config"@) is None || data is None
                || spec_app_dir(v, "XDG_STATE_HOME"@, ".local/state"@) is None
                || spec_app_dir(v, "XDG_CACHE_HOME"@, ".cache"@) is None {
                r == Err::<AppConfig, ConfigError>(ConfigError::MissingHome)
            } else {
                match file_store_path {
                    Err(m) => r == Err::<AppConfig, ConfigError>(ConfigError::InvalidToml { message: m }),
                    Ok(file) => r matches Ok(c) && spec_paths_resolved(c.paths, v) && match cli_store_path {
                        Some(p) => c.database.path == p && c.database.source == ConfigSource::Cli,
                        None => match spec_lookup(v, DB_PATH_ENV@) {
                            Some(p) => c.database.path@ == p && c.database.source == ConfigSource::Environment,
                            None => match file {
                                Some(p) => c.database.path == p && c.database.source == ConfigSource::File,
                                None => c.database.path@ == spec_join_path(data->0, DEFAULT_DB_FILE@)
                                    && c.database.source == ConfigSource::Default,
                            },
                        },
                    },
                }
            }
        }),
{
    let paths = ConfigPaths::from_env(vars)?;
    let file = match file_store_path {
        Ok(f) => f,
        Err(message) => return Err(ConfigError::InvalidToml { message }),
    };
    let database = if let Some(path) = cli_store_path {
        StoreSettings { path, source: ConfigSource::Cli }
    } else if let Some(path) = lookup(vars, DB_PATH_ENV) {
        StoreSettings { path, source: ConfigSource::Environment }
    } else if let Some(path) = file {
        StoreSettings { path, source: ConfigSource::File }
    } else {
        StoreSettings { path: join_path(paths.data_dir.as_str(), DEFAULT_DB_FILE), source: ConfigSource::Default }
    };
    Ok(AppConfig { paths, database })
}

} // verus!
