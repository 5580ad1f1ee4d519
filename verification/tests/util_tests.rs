use taj::envmap::EnvMap;
use taj::error::TajError;
use taj::path::{join, path_is_absolute};
use taj::prefix::install_prefix;
use taj::util::{now_ts, repo_name_from_url, timestamp_of};

#[test]
fn repo_name_of_https_url() {
    assert_eq!(repo_name_from_url("https://github.com/org/repo.git"), "repo");
    assert_eq!(repo_name_from_url("https://gitlab.com/group/sub/tool"), "tool");
}

#[test]
fn repo_name_trims_space_slashes_and_git_suffix() {
    assert_eq!(repo_name_from_url("  https://github.com/org/repo.git/  "), "repo");
    assert_eq!(repo_name_from_url("https://github.com/org/repo//"), "repo");
    assert_eq!(repo_name_from_url("https://example.com/x/y.git.git"), "y");
}

#[test]
fn repo_name_of_scp_like_url() {
    assert_eq!(repo_name_from_url("git@github.com:org/repo.git"), "repo");
    assert_eq!(repo_name_from_url("host:name"), "name");
}

#[test]
fn repo_name_without_separator_is_the_whole_text() {
    assert_eq!(repo_name_from_url("plain"), "plain");
    assert_eq!(repo_name_from_url(""), "");
}

#[test]
fn now_is_after_the_epoch() {
    assert!(now_ts() > 1_600_000_000);
}

#[test]
fn join_paths_as_on_unix() {
    assert_eq!(join("/home/u", ".local/bin"), "/home/u/.local/bin");
    assert_eq!(join("/home/u/", "x"), "/home/u/x");
    assert_eq!(join("", "x"), "x");
    assert_eq!(join("/a", "/b"), "/b");
}

#[test]
fn parent_of_paths() {
    assert_eq!(install_prefix("/usr/local/bin"), "/usr/local");
    assert_eq!(install_prefix("/usr"), "/");
    assert_eq!(install_prefix("/"), "/");
    assert_eq!(install_prefix("bin"), "");
    assert_eq!(install_prefix("/opt/tools/"), "/opt");
}

#[test]
fn absolute_paths() {
    assert!(path_is_absolute("/opt"));
    assert!(!path_is_absolute("opt"));
    assert!(!path_is_absolute(""));
}

#[test]
fn env_map_insert_get_and_keep_first() {
    let mut env = EnvMap::new();
    assert_eq!(env.get("HOME"), None);
    env.insert("HOME".to_string(), "/home/a".to_string());
    env.insert("HOME".to_string(), "/home/b".to_string());
    assert_eq!(env.get("HOME"), Some(&"/home/b".to_string()));
    env.insert_if_absent("HOME".to_string(), "/home/c".to_string());
    env.insert_if_absent("PATH".to_string(), "/bin".to_string());
    assert_eq!(env.get("HOME"), Some(&"/home/b".to_string()));
    assert_eq!(env.get("PATH"), Some(&"/bin".to_string()));
    let mut pairs = env.to_pairs();
    pairs.sort();
    assert_eq!(
        pairs,
        vec![("HOME".to_string(), "/home/b".to_string()), ("PATH".to_string(), "/bin".to_string())]
    );
}

#[test]
fn env_map_from_pairs_last_value_wins() {
    let env = EnvMap::from_pairs(vec![
        ("A".to_string(), "1".to_string()),
        ("A".to_string(), "2".to_string()),
    ]);
    assert_eq!(env.get("A"), Some(&"2".to_string()));
    assert_eq!(env.to_pairs().len(), 1);
}

#[test]
fn error_messages_of_plain_variants() {
    assert_eq!(TajError::HomeNotSet.message(), "HOME is not set");
    assert_eq!(TajError::NoExecutable.message(), "no executable output found");
    assert_eq!(TajError::NoMainRs.message(), "no main.rs found for rustc build");
    assert_eq!(
        TajError::XdgHomeMissing { var: "XDG_CACHE_HOME".to_string() }.message(),
        "XDG_CACHE_HOME is not set and HOME is missing"
    );
    assert_eq!(
        TajError::UnknownSource { source: "ftp".to_string(), name: "x".to_string() }.message(),
        "unknown source 'ftp' for package 'x'"
    );
    assert_eq!(
        TajError::BuildOutputMissing { tool: "go build".to_string(), path: "/o/x".to_string() }
            .message(),
        "go build did not produce /o/x"
    );
    assert_eq!(
        TajError::RequiresRoot { what: "install dir".to_string(), path: "/usr/local/bin".to_string() }
            .message(),
        "install dir /usr/local/bin requires root; run with sudo or set install_dir in config"
    );
    assert_eq!(
        TajError::FileConflicts { conflicts: vec!["/a (owned by x)".to_string(), "/b (exists on disk)".to_string()] }
            .message(),
        "file conflict(s) detected:\n- /a (owned by x)\n- /b (exists on disk)"
    );
    assert_eq!(
        TajError::NoSources { language: ".c".to_string(), tool: "gcc".to_string() }.message(),
        "no .c sources found for gcc build"
    );
    assert_eq!(
        TajError::InvalidManifest { detail: "bad".to_string() }.message(),
        "failed to parse Cargo.toml: bad"
    );
}

#[test]
fn timestamps_of_clock_readings() {
    assert_eq!(timestamp_of(Some(1_700_000_000)), 1_700_000_000);
    assert_eq!(timestamp_of(None), 0);
    assert_eq!(timestamp_of(Some(u64::MAX)), -1);
}
