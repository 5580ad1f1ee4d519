//! The configuration: where the mirror is and where things are installed.
use vstd::prelude::*;
use crate::envmap::EnvMap;
use crate::error::TajError;
use crate::path::{join, path_join};
use crate::text::owned;

verus! {

/// Settings read from `config.toml`.
#[derive(Debug, Clone)]
pub struct Config {
    pub mirror_repo: String,
    pub mirror_branch: String,
    pub mirror_packages_dir: String,
    pub mirror_mode: Option<String>,
    pub install_dir: String,
    pub cache_dir: String,
    pub state_file: String,
}

/// The mirror repository that a new configuration points at.
pub open spec fn default_mirror_repo() -> Seq<char> {
    "https://github.com/taj-pm/packages"@
}

/// Why no directory could be derived from the environment.
pub enum DirFailure {
    /// `HOME` is not set.
    HomeNotSet,
    /// The named XDG variable and `HOME` are both unset.
    XdgHomeMissing(Seq<char>),
}

/// The XDG directory named by `var`, falling back to `$HOME/fallback`.
pub open spec fn xdg_dir_of(env: Map<Seq<char>, Seq<char>>, var: Seq<char>, fallback: Seq<char>) -> Result<
    Seq<char>,
    DirFailure,
> {
    if env.contains_key(var) {
        Ok(env[var])
    } else if env.contains_key("HOME"@) {
        Ok(path_join(env["HOME"@], fallback))
    } else {
        Err(DirFailure::XdgHomeMissing(var))
    }
}

/// Where binaries go: `TAJ_BIN_DIR`, else `/usr/local/bin` for root, else
/// `$HOME/.local/bin`.
pub open spec fn install_dir_of(env: Map<Seq<char>, Seq<char>>, is_root: bool) -> Result<
    Seq<char>,
    DirFailure,
> {
    if env.contains_key("TAJ_BIN_DIR"@) {
        Ok(env["TAJ_BIN_DIR"@])
    } else if is_root {
        Ok("/usr/local/bin"@)
    } else if env.contains_key("HOME"@) {
        Ok(path_join(env["HOME"@], ".local/bin"@))
    } else {
        Err(DirFailure::HomeNotSet)
    }
}

/// The cache directory: `taj` under the XDG cache directory.
pub open spec fn cache_dir_of(env: Map<Seq<char>, Seq<char>>) -> Result<Seq<char>, DirFailure> {
    match xdg_dir_of(env, "XDG_CACHE_HOME"@, ".cache"@) {
        Ok(d) => Ok(path_join(d, "taj"@)),
        Err(e) => Err(e),
    }
}

/// The state file: `TAJ_STATE`, else `/var/lib/taj/installed.json` for root,
/// else `taj/installed.json` under the XDG state directory.
pub open spec fn state_file_of(env: Map<Seq<char>, Seq<char>>, is_root: bool) -> Result<
    Seq<char>,
    DirFailure,
> {
    if env.contains_key("TAJ_STATE"@) {
        Ok(env["TAJ_STATE"@])
    } else if is_root {
        Ok("/var/lib/taj/installed.json"@)
    } else {
        match xdg_dir_of(env, "XDG_STATE_HOME"@, ".local/state"@) {
            Ok(d) => Ok(path_join(path_join(d, "taj"@), "installed.json"@)),
            Err(e) => Err(e),
        }
    }
}

/// The configuration file: `TAJ_CONFIG`, else `/etc/taj/config.toml` for
/// root, else `taj/config.toml` under the XDG config directory.
pub open spec fn config_path_of(env: Map<Seq<char>, Seq<char>>, is_root: bool) -> Result<
    Seq<char>,
    DirFailure,
> {
    if env.contains_key("TAJ_CONFIG"@) {
        Ok(env["TAJ_CONFIG"@])
    } else if is_root {
        Ok("/etc/taj/config.toml"@)
    } else {
        match xdg_dir_of(env, "XDG_CONFIG_HOME"@, ".config"@) {
            Ok(d) => Ok(path_join(path_join(d, "taj"@), "config.toml"@)),
            Err(e) => Err(e),
        }
    }
}

/// `r` is the outcome `spec` describes.
pub open spec fn matches_dir(r: Result<String, TajError>, spec: Result<Seq<char>, DirFailure>) -> bool {
    match spec {
        Ok(d) => r matches Ok(s) && s@ == d,
        Err(DirFailure::HomeNotSet) => r matches Err(TajError::HomeNotSet),
        Err(DirFailure::XdgHomeMissing(v)) => r matches Err(TajError::XdgHomeMissing { var }) && var@
            == v,
    }
}

/// The XDG directory named by `var` (see [`xdg_dir_of`]).
pub fn xdg_dir(env: &EnvMap, var: &str, fallback: &str) -> (r: Result<String, TajError>)
    requires
        env.wf(),
    ensures
        matches_dir(r, xdg_dir_of(env@, var@, fallback@)),
{
    if let Some(dir) = env.get(var) {
        return Ok(dir.clone());
    }
    match env.get("HOME") {
        Some(home) => Ok(join(home.as_str(), fallback)),
        None => Err(TajError::XdgHomeMissing { var: owned(var) }),
    }
}

/// The path of the configuration file (see [`config_path_of`]).
pub fn config_path(env: &EnvMap, is_root: bool) -> (r: Result<String, TajError>)
    requires
        env.wf(),
    ensures
        matches_dir(r, config_path_of(env@, is_root)),
{
    if let Some(p) = env.get("TAJ_CONFIG") {
        return Ok(p.clone());
    }
    if is_root {
        return Ok(owned("/etc/taj/config.toml"));
    }
    let base = xdg_dir(env, "XDG_CONFIG_HOME", ".config")?;
    let dir = join(base.as_str(), "taj");
    Ok(join(dir.as_str(), "config.toml"))
}

/// The configuration written on first run: the public mirror (`main`
/// branch, `packages` directory, git mode) and the directories that the
/// environment gives.
pub open spec fn default_config_ok(c: Config, env: Map<Seq<char>, Seq<char>>, is_root: bool) -> bool {
    &&& c.mirror_repo@ == default_mirror_repo()
    &&& c.mirror_branch@ == "main"@
    &&& c.mirror_packages_dir@ == "packages"@
    &&& c.mirror_mode matches Some(m) && m@ == "git"@
    &&& install_dir_of(env, is_root) == Ok::<Seq<char>, DirFailure>(c.install_dir@)
    &&& cache_dir_of(env) == Ok::<Seq<char>, DirFailure>(c.cache_dir@)
    &&& state_file_of(env, is_root) == Ok::<Seq<char>, DirFailure>(c.state_file@)
}

/// The install directory of a configuration outcome.
pub open spec fn config_field_install_dir(r: Result<Config, TajError>) -> Result<String, TajError> {
    match r {
        Ok(c) => Ok(c.install_dir),
        Err(e) => Err(e),
    }
}

/// The cache directory of a configuration outcome.
pub open spec fn config_field_cache_dir(r: Result<Config, TajError>) -> Result<String, TajError> {
    match r {
        Ok(c) => Ok(c.cache_dir),
        Err(e) => Err(e),
    }
}

/// The state file of a configuration outcome.
pub open spec fn config_field_state_file(r: Result<Config, TajError>) -> Result<String, TajError> {
    match r {
        Ok(c) => Ok(c.state_file),
        Err(e) => Err(e),
    }
}

impl Config {
    /// The configuration for a first run in the environment `env`, for root
    /// when `is_root`. The first directory that cannot be derived ends it,
    /// in the order install dir, cache dir, state file.
    pub fn default_for_env(env: &EnvMap, is_root: bool) -> (r: Result<Config, TajError>)
        requires
            env.wf(),
        ensures
            r matches Ok(c) ==> default_config_ok(c, env@, is_root),
            install_dir_of(env@, is_root) is Err ==> matches_dir(
                config_field_install_dir(r),
                install_dir_of(env@, is_root),
            ),
            install_dir_of(env@, is_root) is Ok && cache_dir_of(env@) is Err ==> matches_dir(
                config_field_cache_dir(r),
                cache_dir_of(env@),
            ),
            install_dir_of(env@, is_root) is Ok && cache_dir_of(env@) is Ok && state_file_of(
                env@,
                is_root,
            ) is Err ==> matches_dir(config_field_state_file(r), state_file_of(env@, is_root)),
            (install_dir_of(env@, is_root) is Ok && cache_dir_of(env@) is Ok && state_file_of(
                env@,
                is_root,
            ) is Ok) ==> r is Ok,
    {
        let install_dir = if let Some(p) = env.get("TAJ_BIN_DIR") {
            p.clone()
        } else if is_root {
            owned("/usr/local/bin")
        } else {
            match env.get("HOME") {
                Some(home) => join(home.as_str(), ".local/bin"),
                None => {
                    return Err(TajError::HomeNotSet);
                },
            }
        };
        let cache_base = xdg_dir(env, "XDG_CACHE_HOME", ".cache")?;
        let cache_dir = join(cache_base.as_str(), "taj");
        let state_file = if let Some(p) = env.get("TAJ_STATE") {
            p.clone()
        } else if is_root {
            owned("/var/lib/taj/installed.json")
        } else {
            let base = xdg_dir(env, "XDG_STATE_HOME", ".local/state")?;
            let dir = join(base.as_str(), "taj");
            join(dir.as_str(), "installed.json")
        };
        Ok(Config {
            mirror_repo: owned("https://github.com/taj-pm/packages"),
            mirror_branch: owned("main"),
            mirror_packages_dir: owned("packages"),
            mirror_mode: Some(owned("git")),
            install_dir,
            cache_dir,
            state_file,
        })
    }
}

/// The directory that binaries are installed to.
pub fn install_dir(config: &Config) -> (r: Result<String, TajError>)
    ensures
        r matches Ok(s) && s@ == config.install_dir@,
{
    Ok(config.install_dir.clone())
}

/// The cache directory (mirror checkout and build trees).
pub fn cache_dir(config: &Config) -> (r: Result<String, TajError>)
    ensures
        r matches Ok(s) && s@ == config.cache_dir@,
{
    Ok(config.cache_dir.clone())
}

/// The file the installed-package state is kept in.
pub fn state_file(config: &Config) -> (r: Result<String, TajError>)
    ensures
        r matches Ok(s) && s@ == config.state_file@,
{
    Ok(config.state_file.clone())
}

} // verus!
