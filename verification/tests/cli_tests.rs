use taj::cli::{parse_legacy, Action, Cli, Command, InstallArgs, LegacyCommand};
use taj::error::TajError;

fn args(v: &[&str]) -> Vec<String> {
    v.iter().map(|s| s.to_string()).collect()
}

#[test]
fn legacy_needs_a_flag() {
    assert!(matches!(parse_legacy(&args(&[])), Ok(None)));
    assert!(matches!(parse_legacy(&args(&["taj"])), Ok(None)));
}

#[test]
fn legacy_other_arguments_are_not_legacy() {
    assert!(matches!(parse_legacy(&args(&["taj", "install", "ripgrep"])), Ok(None)));
    assert!(matches!(parse_legacy(&args(&["taj", "--help"])), Ok(None)));
}

#[test]
fn legacy_install_from_mirror() {
    match parse_legacy(&args(&["taj", "-i", "ripgrep"])) {
        Ok(Some(LegacyCommand::InstallMirror { name })) => assert_eq!(name, "ripgrep"),
        other => panic!("unexpected {:?}", other),
    }
}

#[test]
fn legacy_install_from_github_and_gitlab() {
    match parse_legacy(&args(&["taj", "-gh", "https://github.com/org/repo.git"])) {
        Ok(Some(LegacyCommand::InstallGit { url, provider })) => {
            assert_eq!(url, "https://github.com/org/repo.git");
            assert_eq!(provider, "github");
        }
        other => panic!("unexpected {:?}", other),
    }
    match parse_legacy(&args(&["taj", "-gl", "https://gitlab.com/org/repo.git"])) {
        Ok(Some(LegacyCommand::InstallGit { url, provider })) => {
            assert_eq!(url, "https://gitlab.com/org/repo.git");
            assert_eq!(provider, "gitlab");
        }
        other => panic!("unexpected {:?}", other),
    }
}

#[test]
fn legacy_uninstall() {
    match parse_legacy(&args(&["taj", "-u", "fd", "extra"])) {
        Ok(Some(LegacyCommand::Uninstall { name })) => assert_eq!(name, "fd"),
        other => panic!("unexpected {:?}", other),
    }
}

#[test]
fn legacy_missing_argument_messages() {
    let cases = [
        ("-i", "missing package name after -i"),
        ("-gh", "missing URL after -gh"),
        ("-gl", "missing URL after -gl"),
        ("-u", "missing package name after -u"),
    ];
    for (flag, message) in cases {
        match parse_legacy(&args(&["taj", flag])) {
            Err(e) => {
                assert_eq!(e, TajError::MissingLegacyArgument { flag: flag.to_string() });
                assert_eq!(e.message(), message);
            }
            other => panic!("unexpected {:?}", other),
        }
    }
}

#[test]
fn cli_action_without_command_is_help() {
    let cli = Cli { command: None };
    assert_eq!(cli.action(), Action::Help);
}

#[test]
fn cli_action_list_and_uninstall() {
    assert_eq!(Cli { command: Some(Command::List) }.action(), Action::List);
    let cli = Cli { command: Some(Command::Uninstall { name: "fd".to_string() }) };
    assert_eq!(cli.action(), Action::Run(LegacyCommand::Uninstall { name: "fd".to_string() }));
}

#[test]
fn cli_action_install_prefers_name_then_github_then_gitlab() {
    let all = InstallArgs {
        name: Some("rg".to_string()),
        github: Some("https://github.com/a/b".to_string()),
        gitlab: Some("https://gitlab.com/c/d".to_string()),
    };
    assert_eq!(
        Cli { command: Some(Command::Install(all)) }.action(),
        Action::Run(LegacyCommand::InstallMirror { name: "rg".to_string() })
    );
    let hub = InstallArgs {
        name: None,
        github: Some("https://github.com/a/b".to_string()),
        gitlab: Some("https://gitlab.com/c/d".to_string()),
    };
    assert_eq!(
        Cli { command: Some(Command::Install(hub)) }.action(),
        Action::Run(LegacyCommand::InstallGit {
            url: "https://github.com/a/b".to_string(),
            provider: "github".to_string(),
        })
    );
    let lab = InstallArgs { name: None, github: None, gitlab: Some("https://gitlab.com/c/d".to_string()) };
    assert_eq!(
        Cli { command: Some(Command::Install(lab)) }.action(),
        Action::Run(LegacyCommand::InstallGit {
            url: "https://gitlab.com/c/d".to_string(),
            provider: "gitlab".to_string(),
        })
    );
}

#[test]
fn legacy_flags_and_subcommands_ask_the_same() {
    let pairs = [
        (
            "-i",
            InstallArgs { name: Some("x".to_string()), github: None, gitlab: None },
        ),
        (
            "-gh",
            InstallArgs { name: None, github: Some("x".to_string()), gitlab: None },
        ),
        (
            "-gl",
            InstallArgs { name: None, github: None, gitlab: Some("x".to_string()) },
        ),
    ];
    for (flag, install) in pairs {
        let legacy = parse_legacy(&args(&["taj", flag, "x"])).unwrap().unwrap();
        let sub = Cli { command: Some(Command::Install(install)) }.action();
        assert_eq!(sub, Action::Run(legacy));
    }
    let legacy = parse_legacy(&args(&["taj", "-u", "x"])).unwrap().unwrap();
    let sub = Cli { command: Some(Command::Uninstall { name: "x".to_string() }) }.action();
    assert_eq!(sub, Action::Run(legacy));
}

#[test]
fn meta_and_bundle_install_a_mirror_package() {
    let cli = Cli { command: Some(Command::Meta { name: "desktop".to_string() }) };
    assert_eq!(cli.action(), Action::Run(LegacyCommand::InstallMirror { name: "desktop".to_string() }));
    let cli = Cli { command: Some(Command::Bundle { name: "devtools".to_string() }) };
    assert_eq!(cli.action(), Action::Run(LegacyCommand::InstallMirror { name: "devtools".to_string() }));
}
