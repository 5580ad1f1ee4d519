use taj::config::{cache_dir, config_path, install_dir, state_file, xdg_dir, Config};
use taj::envmap::EnvMap;
use taj::error::TajError;

fn env(pairs: &[(&str, &str)]) -> EnvMap {
    let mut e = EnvMap::new();
    for (k, v) in pairs {
        e.insert(k.to_string(), v.to_string());
    }
    e
}

#[test]
fn default_config_for_a_user() {
    let c = Config::default_for_env(&env(&[("HOME", "/home/ann")]), false).unwrap();
    assert_eq!(c.mirror_repo, "https://github.com/taj-pm/packages");
    assert_eq!(c.mirror_branch, "main");
    assert_eq!(c.mirror_packages_dir, "packages");
    assert_eq!(c.mirror_mode, Some("git".to_string()));
    assert_eq!(c.install_dir, "/home/ann/.local/bin");
    assert_eq!(c.cache_dir, "/home/ann/.cache/taj");
    assert_eq!(c.state_file, "/home/ann/.local/state/taj/installed.json");
}

#[test]
fn default_config_for_root() {
    let c = Config::default_for_env(&env(&[("HOME", "/root")]), true).unwrap();
    assert_eq!(c.install_dir, "/usr/local/bin");
    assert_eq!(c.cache_dir, "/root/.cache/taj");
    assert_eq!(c.state_file, "/var/lib/taj/installed.json");
}

#[test]
fn default_config_follows_overrides() {
    let e = env(&[
        ("TAJ_BIN_DIR", "/opt/bin"),
        ("TAJ_STATE", "/tmp/state.json"),
        ("XDG_CACHE_HOME", "/var/cache/u"),
    ]);
    let c = Config::default_for_env(&e, false).unwrap();
    assert_eq!(c.install_dir, "/opt/bin");
    assert_eq!(c.cache_dir, "/var/cache/u/taj");
    assert_eq!(c.state_file, "/tmp/state.json");
}

#[test]
fn default_config_without_home() {
    let r = Config::default_for_env(&env(&[]), false);
    assert_eq!(r.unwrap_err(), TajError::HomeNotSet);
    let r = Config::default_for_env(&env(&[("TAJ_BIN_DIR", "/opt/bin")]), false);
    assert_eq!(r.unwrap_err(), TajError::XdgHomeMissing { var: "XDG_CACHE_HOME".to_string() });
    let r = Config::default_for_env(
        &env(&[("TAJ_BIN_DIR", "/opt/bin"), ("XDG_CACHE_HOME", "/c")]),
        false,
    );
    assert_eq!(r.unwrap_err(), TajError::XdgHomeMissing { var: "XDG_STATE_HOME".to_string() });
    let c = Config::default_for_env(&env(&[("XDG_CACHE_HOME", "/c")]), true).unwrap();
    assert_eq!(c.state_file, "/var/lib/taj/installed.json");
}

#[test]
fn config_path_choices() {
    assert_eq!(config_path(&env(&[("TAJ_CONFIG", "/x.toml")]), true).unwrap(), "/x.toml");
    assert_eq!(config_path(&env(&[("HOME", "/h")]), true).unwrap(), "/etc/taj/config.toml");
    assert_eq!(config_path(&env(&[("HOME", "/h")]), false).unwrap(), "/h/.config/taj/config.toml");
    assert_eq!(
        config_path(&env(&[("XDG_CONFIG_HOME", "/cfg")]), false).unwrap(),
        "/cfg/taj/config.toml"
    );
    assert_eq!(
        config_path(&env(&[]), false).unwrap_err(),
        TajError::XdgHomeMissing { var: "XDG_CONFIG_HOME".to_string() }
    );
}

#[test]
fn xdg_dir_prefers_variable() {
    assert_eq!(xdg_dir(&env(&[("XDG_X", "/x"), ("HOME", "/h")]), "XDG_X", ".x").unwrap(), "/x");
    assert_eq!(xdg_dir(&env(&[("HOME", "/h")]), "XDG_X", ".x").unwrap(), "/h/.x");
}

#[test]
fn configured_directories_are_returned_as_given() {
    let c = Config::default_for_env(&env(&[("HOME", "/home/b")]), false).unwrap();
    assert_eq!(install_dir(&c).unwrap(), c.install_dir);
    assert_eq!(cache_dir(&c).unwrap(), c.cache_dir);
    assert_eq!(state_file(&c).unwrap(), c.state_file);
}
