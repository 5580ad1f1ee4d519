use taj::config::Config;
use taj::error::TajError;
use taj::git::{clone_repo, clone_repo_at_ref, ensure_mirror};
use taj::mirror::{
    find_taj_file, github_raw_base, http_mirror_bases, http_taj_urls, mirror_mode, no_http_taj_file,
    push_unique, taj_file_candidates, MirrorMode,
};

fn config(repo: &str, branch: &str, dir: &str, mode: Option<&str>) -> Config {
    Config {
        mirror_repo: repo.to_string(),
        mirror_branch: branch.to_string(),
        mirror_packages_dir: dir.to_string(),
        mirror_mode: mode.map(|m| m.to_string()),
        install_dir: "/home/u/.local/bin".to_string(),
        cache_dir: "/home/u/.cache/taj".to_string(),
        state_file: "/home/u/.local/state/taj/installed.json".to_string(),
    }
}

fn strings(v: &[&str]) -> Vec<String> {
    v.iter().map(|s| s.to_string()).collect()
}

#[test]
fn mirror_mode_http_words() {
    for m in ["http", "HTTPS", "Url"] {
        assert_eq!(mirror_mode(&config("r", "b", "p", Some(m))), MirrorMode::Http);
    }
    assert_eq!(mirror_mode(&config("r", "b", "p", Some("git"))), MirrorMode::Git);
    assert_eq!(mirror_mode(&config("r", "b", "p", Some("ftp"))), MirrorMode::Git);
    assert_eq!(mirror_mode(&config("r", "b", "p", None)), MirrorMode::Git);
}

#[test]
fn raw_base_of_github_mirror() {
    assert_eq!(
        github_raw_base("https://github.com/taj-pm/packages", "main", "packages"),
        Some("https://raw.githubusercontent.com/taj-pm/packages/main/packages".to_string())
    );
    assert_eq!(
        github_raw_base(" http://github.com/o/r.git/ ", "dev", "/pkgs/"),
        Some("https://raw.githubusercontent.com/o/r/dev/pkgs".to_string())
    );
    assert_eq!(
        github_raw_base("https://github.com/o/r", "main", ""),
        Some("https://raw.githubusercontent.com/o/r/main".to_string())
    );
}

#[test]
fn raw_base_needs_github_owner_and_repo() {
    assert_eq!(github_raw_base("https://gitlab.com/o/r", "main", "p"), None);
    assert_eq!(github_raw_base("https://github.com/owner", "main", "p"), None);
    assert_eq!(github_raw_base("https://github.com//r", "main", "p"), None);
}

#[test]
fn http_bases_of_default_mirror() {
    let c = config("https://github.com/taj-pm/packages", "main", "packages", Some("http"));
    assert_eq!(
        http_mirror_bases(&c),
        strings(&[
            "https://raw.githubusercontent.com/taj-pm/packages/main/packages",
            "https://github.com/taj-pm/packages",
        ])
    );
}

#[test]
fn http_bases_append_the_packages_dir() {
    let c = config("https://example.com/mirror", "main", "/pkgs/", Some("http"));
    assert_eq!(http_mirror_bases(&c), strings(&["https://example.com/mirror/pkgs"]));
}

#[test]
fn http_bases_keep_a_packages_suffix() {
    let c = config("https://example.com/mirror/packages/", "main", "packages", Some("http"));
    assert_eq!(http_mirror_bases(&c), strings(&["https://example.com/mirror/packages"]));
    let c = config("https://example.com/m", "main", "", Some("http"));
    assert_eq!(http_mirror_bases(&c), strings(&["https://example.com/m"]));
}

#[test]
fn push_unique_skips_present_values() {
    let mut v = strings(&["a"]);
    push_unique(&mut v, "a".to_string());
    assert_eq!(v, strings(&["a"]));
    push_unique(&mut v, "b".to_string());
    assert_eq!(v, strings(&["a", "b"]));
}

#[test]
fn taj_candidates_in_order() {
    assert_eq!(
        taj_file_candidates("/c/mirror", "packages", "rg"),
        strings(&[
            "/c/mirror/packages/rg.taj",
            "/c/mirror/packages/rg.Taj",
            "/c/mirror/rg.taj",
            "/c/mirror/rg.Taj",
        ])
    );
}

#[test]
fn first_existing_candidate_wins() {
    let c = taj_file_candidates("/m", "p", "x");
    assert_eq!(find_taj_file(&c, &vec![false, true, true, false], "x").unwrap(), "/m/p/x.Taj");
    assert_eq!(find_taj_file(&c, &vec![false, false, false, true], "x").unwrap(), "/m/x.Taj");
    let e = find_taj_file(&c, &vec![false; 4], "x").unwrap_err();
    assert_eq!(e, TajError::NoTajFile { name: "x".to_string() });
    assert_eq!(e.message(), "no taj file found for x in mirror");
}

#[test]
fn http_urls_try_both_extensions_per_base() {
    assert_eq!(
        http_taj_urls(&strings(&["https://a", "https://b/p"]), "fd"),
        strings(&["https://a/fd.taj", "https://a/fd.Taj", "https://b/p/fd.taj", "https://b/p/fd.Taj"])
    );
}

#[test]
fn no_http_file_names_the_bases() {
    let c = config("https://github.com/taj-pm/packages", "main", "packages", Some("http"));
    let e = no_http_taj_file(&c, "fd");
    assert_eq!(
        e.message(),
        "no taj file found for 'fd' in HTTP mirror (bases: https://raw.githubusercontent.com/taj-pm/packages/main/packages, https://github.com/taj-pm/packages)"
    );
}

#[test]
fn clone_commands() {
    let c = clone_repo("https://x/y.git", "/tmp/d");
    assert_eq!(c.program, "git");
    assert_eq!(c.args, strings(&["clone", "--depth", "1", "https://x/y.git", "/tmp/d"]));
    assert!(c.cwd.is_none());
    let c = clone_repo_at_ref("https://x/y.git", "/tmp/d", Some("3f2a9c1"));
    assert_eq!(c.len(), 2);
    assert_eq!(c[0].program, "git");
    assert_eq!(c[0].args, strings(&["clone", "https://x/y.git", "/tmp/d"]));
    assert_eq!(c[1].args, strings(&["-C", "/tmp/d", "checkout", "3f2a9c1"]));
    let c = clone_repo_at_ref("https://x/y.git", "/tmp/d", None);
    assert_eq!(c.len(), 1);
    assert_eq!(c[0].args, strings(&["clone", "--depth", "1", "https://x/y.git", "/tmp/d"]));
}

#[test]
fn mirror_clone_when_missing() {
    let c = config("https://github.com/taj-pm/packages", "main", "packages", None);
    let sync = ensure_mirror(&c, "/c", false, false).unwrap();
    assert_eq!(sync.mirror_dir, "/c/mirror");
    assert_eq!(sync.commands.len(), 1);
    assert_eq!(
        sync.commands[0].args,
        strings(&["clone", "--depth", "1", "-b", "main", "https://github.com/taj-pm/packages", "/c/mirror"])
    );
}

#[test]
fn mirror_fetch_and_reset_when_present() {
    let c = config("https://github.com/taj-pm/packages", "main", "packages", None);
    let sync = ensure_mirror(&c, "/c", true, true).unwrap();
    assert_eq!(sync.commands.len(), 2);
    assert_eq!(
        sync.commands[0].args,
        strings(&["-C", "/c/mirror", "fetch", "--depth", "1", "origin", "main"])
    );
    assert_eq!(sync.commands[1].args, strings(&["-C", "/c/mirror", "reset", "--hard", "FETCH_HEAD"]));
}

#[test]
fn mirror_that_is_not_a_checkout() {
    let c = config("r", "main", "packages", None);
    let e = ensure_mirror(&c, "/c", true, false).unwrap_err();
    assert_eq!(e, TajError::MirrorNotGitRepo { dir: "/c/mirror".to_string() });
    assert_eq!(e.message(), "mirror path exists but is not a git repo: /c/mirror");
}
