//! The command line: the subcommand form and the legacy flags.
use vstd::prelude::*;
use crate::error::TajError;
use crate::text::str_eq;

verus! {

/// The parsed command line (subcommand form).
#[derive(Debug)]
pub struct Cli {
    pub command: Option<Command>,
}

/// A subcommand.
#[derive(Debug)]
pub enum Command {
    Install(InstallArgs),
    /// Install a meta package (one that only installs its dependencies)
    /// from the mirror.
    Meta { name: String },
    /// Install a bundle (a meta package) from the mirror.
    Bundle { name: String },
    Uninstall { name: String },
    List,
}

/// Where `install` takes a package from; exactly one is given.
#[derive(Debug)]
pub struct InstallArgs {
    pub name: Option<String>,
    pub github: Option<String>,
    pub gitlab: Option<String>,
}

/// A command given with the legacy flags (`-i`, `-gh`, `-gl`, `-u`).
#[derive(Debug, Clone, PartialEq, Eq)]
pub enum LegacyCommand {
    InstallMirror { name: String },
    InstallGit { url: String, provider: String },
    Uninstall { name: String },
}

/// What the program is asked to do.
#[derive(Debug, Clone, PartialEq, Eq)]
pub enum Action {
    /// Print the help text.
    Help,
    /// List the installed packages.
    List,
    /// Install or uninstall a package.
    Run(LegacyCommand),
}

/// What a command asks for, as values.
pub enum Request {
    /// Install this mirror package.
    InstallMirror(Seq<char>),
    /// Install from this git URL, from this provider.
    InstallGit(Seq<char>, Seq<char>),
    /// Uninstall this package.
    Uninstall(Seq<char>),
}

/// What a legacy command asks for.
pub open spec fn legacy_request(c: LegacyCommand) -> Request {
    match c {
        LegacyCommand::InstallMirror { name } => Request::InstallMirror(name@),
        LegacyCommand::InstallGit { url, provider } => Request::InstallGit(url@, provider@),
        LegacyCommand::Uninstall { name } => Request::Uninstall(name@),
    }
}

/// What a legacy flag with its argument asks for.
pub open spec fn flag_request(flag: Seq<char>, arg: Seq<char>) -> Option<Request> {
    if flag == "-i"@ {
        Some(Request::InstallMirror(arg))
    } else if flag == "-gh"@ {
        Some(Request::InstallGit(arg, "github"@))
    } else if flag == "-gl"@ {
        Some(Request::InstallGit(arg, "gitlab"@))
    } else if flag == "-u"@ {
        Some(Request::Uninstall(arg))
    } else {
        None
    }
}

/// What a subcommand asks for (`list` and an `install` without a source ask
/// for none of these): for `install`, the package name first, then a GitHub
/// URL, then a GitLab URL.
pub open spec fn subcommand_request(c: Command) -> Option<Request> {
    match c {
        Command::Install(a) => match a.name {
            Some(n) => Some(Request::InstallMirror(n@)),
            None => match a.github {
                Some(u) => Some(Request::InstallGit(u@, "github"@)),
                None => match a.gitlab {
                    Some(u) => Some(Request::InstallGit(u@, "gitlab"@)),
                    None => None,
                },
            },
        },
        Command::Meta { name } => Some(Request::InstallMirror(name@)),
        Command::Bundle { name } => Some(Request::InstallMirror(name@)),
        Command::Uninstall { name } => Some(Request::Uninstall(name@)),
        Command::List => None,
    }
}

/// The legacy flags.
pub open spec fn is_legacy_flag(f: Seq<char>) -> bool {
    f == "-i"@ || f == "-gh"@ || f == "-gl"@ || f == "-u"@
}

/// Reads the legacy form `taj FLAG ARG` from the full argument list
/// (`args[0]` is the program). Anything else is not a legacy command.
pub fn parse_legacy(args: &[String]) -> (r: Result<Option<LegacyCommand>, TajError>)
    ensures
        args@.len() < 2 ==> r == Ok::<Option<LegacyCommand>, TajError>(None),
        args@.len() >= 2 && !is_legacy_flag(args@[1]@) ==> r == Ok::<
            Option<LegacyCommand>,
            TajError,
        >(None),
        args@.len() == 2 && is_legacy_flag(args@[1]@) ==> (r matches Err(
            TajError::MissingLegacyArgument { flag },
        ) && flag@ == args@[1]@),
        args@.len() >= 3 && args@[1]@ == "-i"@ ==> (r matches Ok(
            Some(LegacyCommand::InstallMirror { name }),
        ) && name@ == args@[2]@),
        args@.len() >= 3 && args@[1]@ == "-gh"@ ==> (r matches Ok(
            Some(LegacyCommand::InstallGit { url, provider }),
        ) && url@ == args@[2]@ && provider@ == "github"@),
        args@.len() >= 3 && args@[1]@ == "-gl"@ ==> (r matches Ok(
            Some(LegacyCommand::InstallGit { url, provider }),
        ) && url@ == args@[2]@ && provider@ == "gitlab"@),
        args@.len() >= 3 && args@[1]@ == "-u"@ ==> (r matches Ok(
            Some(LegacyCommand::Uninstall { name }),
        ) && name@ == args@[2]@),
        args@.len() >= 3 && is_legacy_flag(args@[1]@) ==> (r matches Ok(Some(c)) && Some(
            legacy_request(c),
        ) == flag_request(args@[1]@, args@[2]@)),
{
    proof {
        reveal_strlit("-i");
        reveal_strlit("-gh");
        reveal_strlit("-gl");
        reveal_strlit("-u");
        reveal_strlit("github");
        reveal_strlit("gitlab");
        assert("-gh"@.len() == 3 && "-i"@.len() == 2);
        assert("-gh"@ != "-i"@);
        assert("-gl"@ != "-i"@);
        assert("-gl"@[2] != "-gh"@[2]);
        assert("-u"@[1] != "-i"@[1]);
    }
    if args.len() < 2 {
        return Ok(None);
    }
    let flag = args[1].as_str();
    let known = str_eq(flag, "-i") || str_eq(flag, "-gh") || str_eq(flag, "-gl") || str_eq(
        flag,
        "-u",
    );
    if !known {
        return Ok(None);
    }
    if args.len() < 3 {
        return Err(TajError::MissingLegacyArgument { flag: args[1].clone() });
    }
    let arg = args[2].clone();
    if str_eq(flag, "-i") {
        Ok(Some(LegacyCommand::InstallMirror { name: arg }))
    } else if str_eq(flag, "-gh") {
        let provider = crate::text::owned("github");
        Ok(Some(LegacyCommand::InstallGit { url: arg, provider }))
    } else if str_eq(flag, "-gl") {
        let provider = crate::text::owned("gitlab");
        Ok(Some(LegacyCommand::InstallGit { url: arg, provider }))
    } else {
        Ok(Some(LegacyCommand::Uninstall { name: arg }))
    }
}

impl InstallArgs {
    /// Whether a source is given.
    pub open spec fn has_source(&self) -> bool {
        self.name is Some || self.github is Some || self.gitlab is Some
    }
}

impl Cli {
    /// What the command line asks for: help when there is no subcommand;
    /// for `install`, the package name first, then a GitHub URL, then a
    /// GitLab URL; `meta` and `bundle` install a mirror package.
    pub fn action(&self) -> (a: Action)
        requires
            self.command matches Some(Command::Install(args)) ==> args.has_source(),
        ensures
            self.command is None ==> a == Action::Help,
            self.command matches Some(c) ==> (subcommand_request(c) is Some ==> (
            a matches Action::Run(lc) && Some(legacy_request(lc)) == subcommand_request(c))),
            self.command matches Some(Command::List) ==> a == Action::List,
            self.command matches Some(Command::Meta { name }) ==> (a matches Action::Run(
                LegacyCommand::InstallMirror { name: n },
            ) && n@ == name@),
            self.command matches Some(Command::Bundle { name }) ==> (a matches Action::Run(
                LegacyCommand::InstallMirror { name: n },
            ) && n@ == name@),
            self.command matches Some(Command::Uninstall { name }) ==> (a matches Action::Run(
                LegacyCommand::Uninstall { name: n },
            ) && n@ == name@),
            self.command matches Some(Command::Install(args)) ==> {
                &&& args.name matches Some(name) ==> (a matches Action::Run(
                    LegacyCommand::InstallMirror { name: n },
                ) && n@ == name@)
                &&& args.name is None ==> (args.github matches Some(url) ==> (a matches Action::Run(
                    LegacyCommand::InstallGit { url: u, provider },
                ) && u@ == url@ && provider@ == "github"@))
                &&& (args.name is None && args.github is None) ==> (args.gitlab matches Some(url)
                    ==> (a matches Action::Run(LegacyCommand::InstallGit { url: u, provider })
                    && u@ == url@ && provider@ == "gitlab"@))
            },
    {
        match &self.command {
            None => Action::Help,
            Some(Command::List) => Action::List,
            Some(Command::Meta { name }) => Action::Run(
                LegacyCommand::InstallMirror { name: name.clone() },
            ),
            Some(Command::Bundle { name }) => Action::Run(
                LegacyCommand::InstallMirror { name: name.clone() },
            ),
            Some(Command::Uninstall { name }) => Action::Run(
                LegacyCommand::Uninstall { name: name.clone() },
            ),
            Some(Command::Install(args)) => {
                if let Some(name) = &args.name {
                    Action::Run(LegacyCommand::InstallMirror { name: name.clone() })
                } else if let Some(url) = &args.github {
                    let provider = crate::text::owned("github");
                    Action::Run(LegacyCommand::InstallGit { url: url.clone(), provider })
                } else {
                    let url = args.gitlab.as_ref().unwrap();
                    let provider = crate::text::owned("gitlab");
                    Action::Run(LegacyCommand::InstallGit { url: url.clone(), provider })
                }
            },
        }
    }
}

} // verus!
