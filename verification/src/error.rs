//! The errors that the library's decisions can end in.
use vstd::prelude::*;

verus! {

/// Why an operation was refused. Each variant carries the values that its
/// message names; [`TajError::message`] gives the text shown to the user.
#[derive(Debug, Clone, PartialEq, Eq)]
pub enum TajError {
    /// A legacy flag (`-i`, `-gh`, `-gl`, `-u`) was given without its argument.
    MissingLegacyArgument { flag: String },
    /// `HOME` is needed and not set.
    HomeNotSet,
    /// An XDG variable is not set and `HOME` is missing either.
    XdgHomeMissing { var: String },
    /// A build method name that is not known.
    UnknownBuildMethod { value: String },
    /// No build system could be recognised in a repository.
    NoBuildSystem { dir: String },
    /// The mirror directory exists but holds no `.git`.
    MirrorNotGitRepo { dir: String },
    /// The package is installed already.
    AlreadyInstalled { name: String },
    /// The package is not installed.
    NotInstalled { name: String },
    /// An installed package records a source that cannot be upgraded from.
    UnknownSource { source: String, name: String },
    /// The mirror dependencies of a package form a cycle through `name`.
    DependencyCycle { name: String },
    /// A package counted as installed has no record in the state.
    MissingState { name: String },
    /// Files that an install would write are owned or present already.
    FileConflicts { conflicts: Vec<String> },
    /// An `[install]` method other than make, cmake or meson.
    UnsupportedInstallMethod { method: String },
    /// Build tools or pkg-config libraries are missing; the full report.
    MissingBuildDependencies { report: String },
    /// Two staged files map to the same destination.
    DuplicateStagedPath { path: String },
    /// An install step staged no files.
    NothingStaged { dir: String },
    /// No `.taj` file for the package in the mirror checkout.
    NoTajFile { name: String },
    /// No `.taj` file for the package under any HTTP mirror base.
    NoHttpTajFile { name: String, bases: Vec<String> },
    /// The destination of an install exists and may not be replaced.
    DestinationExists { path: String },
    /// The destination of a staged file is a directory.
    DestinationIsDirectory { path: String },
    /// A build produced no executable.
    NoExecutable,
    /// A build left out the file it was to produce.
    BuildOutputMissing { tool: String, path: String },
    /// A gcc or g++ build found no sources of its language.
    NoSources { language: String, tool: String },
    /// A build method that has no build procedure of its own.
    UnsupportedBuildMethod { method: String },
    /// A rustc build found no `main.rs`.
    NoMainRs,
    /// A `Cargo.toml` that is not valid TOML; the parser's explanation.
    InvalidManifest { detail: String },
    /// A system directory (`what` is `install dir` or `install prefix`) and
    /// the process is not root.
    RequiresRoot { what: String, path: String },
}

/// The text of a legacy flag's missing argument.
pub open spec fn legacy_arg_kind(flag: Seq<char>) -> Seq<char> {
    if flag == "-gh"@ || flag == "-gl"@ {
        "URL"@
    } else {
        "package name"@
    }
}

/// The joined list of file conflicts, each on a line of its own after `- `.
pub open spec fn conflict_lines(c: Seq<Seq<char>>) -> Seq<char>
    decreases c.len(),
{
    if c.len() == 0 {
        Seq::empty()
    } else {
        conflict_lines(c.drop_last()) + "\n- "@ + c.last()
    }
}

/// The message of each error.
pub open spec fn error_message(e: TajError) -> Seq<char> {
    match e {
        TajError::MissingLegacyArgument { flag } => "missing "@ + legacy_arg_kind(flag@)
            + " after "@ + flag@,
        TajError::HomeNotSet => "HOME is not set"@,
        TajError::XdgHomeMissing { var } => var@ + " is not set and HOME is missing"@,
        TajError::UnknownBuildMethod { value } => "unknown build method: "@ + value@,
        TajError::NoBuildSystem { dir } => "could not detect a build system in "@ + dir@,
        TajError::MirrorNotGitRepo { dir } => "mirror path exists but is not a git repo: "@
            + dir@,
        TajError::AlreadyInstalled { name } => "package '"@ + name@ + "' is already installed"@,
        TajError::NotInstalled { name } => "package '"@ + name@ + "' is not installed"@,
        TajError::UnknownSource { source, name } => "unknown source '"@ + source@
            + "' for package '"@ + name@ + "'"@,
        TajError::DependencyCycle { name } => "dependency cycle detected at '"@ + name@ + "'"@,
        TajError::MissingState { name } => "missing state for "@ + name@,
        TajError::FileConflicts { conflicts } => "file conflict(s) detected:"@ + conflict_lines(
            conflicts@.map_values(|s: String| s@),
        ),
        TajError::UnsupportedInstallMethod { method } => "unsupported install method: "@
            + method@,
        TajError::MissingBuildDependencies { report } => report@,
        TajError::DuplicateStagedPath { path } => "duplicate staged path: "@ + path@,
        TajError::NothingStaged { dir } => "install produced no files in "@ + dir@,
        TajError::NoTajFile { name } => "no taj file found for "@ + name@ + " in mirror"@,
        TajError::NoHttpTajFile { name, bases } => "no taj file found for '"@ + name@
            + "' in HTTP mirror (bases: "@ + crate::text::join_seq(
            bases@.map_values(|s: String| s@),
            ", "@,
        ) + ")"@,
        TajError::DestinationExists { path } => "destination already exists: "@ + path@,
        TajError::DestinationIsDirectory { path } => "destination is a directory: "@ + path@,
        TajError::NoExecutable => "no executable output found"@,
        TajError::BuildOutputMissing { tool, path } => tool@ + " did not produce "@ + path@,
        TajError::NoSources { language, tool } => "no "@ + language@ + " sources found for "@
            + tool@ + " build"@,
        TajError::UnsupportedBuildMethod { method } => "no build procedure for method "@ + method@,
        TajError::NoMainRs => "no main.rs found for rustc build"@,
        TajError::InvalidManifest { detail } => "failed to parse Cargo.toml: "@ + detail@,
        TajError::RequiresRoot { what, path } => what@ + " "@ + path@
            + " requires root; run with sudo or set install_dir in config"@,
    }
}

impl TajError {
    /// The message shown to the user.
    pub fn message(&self) -> (r: String)
        ensures
            r@ == error_message(*self),
    {
        proof {
            reveal_strlit("-gh");
            reveal_strlit("-gl");
            reveal_strlit("URL");
            reveal_strlit("package name");
        }
        match self {
            TajError::MissingLegacyArgument { flag } => {
                let kind = if crate::text::str_eq(flag.as_str(), "-gh")
                    || crate::text::str_eq(flag.as_str(), "-gl") {
                    "URL"
                } else {
                    "package name"
                };
                let mut r = crate::text::concat3("missing ", kind, " after ");
                r.append(flag.as_str());
                r
            },
            TajError::HomeNotSet => crate::text::owned("HOME is not set"),
            TajError::XdgHomeMissing { var } => crate::text::concat(
                var.as_str(),
                " is not set and HOME is missing",
            ),
            TajError::UnknownBuildMethod { value } => crate::text::concat(
                "unknown build method: ",
                value.as_str(),
            ),
            TajError::NoBuildSystem { dir } => crate::text::concat(
                "could not detect a build system in ",
                dir.as_str(),
            ),
            TajError::MirrorNotGitRepo { dir } => crate::text::concat(
                "mirror path exists but is not a git repo: ",
                dir.as_str(),
            ),
            TajError::AlreadyInstalled { name } => crate::text::concat3(
                "package '",
                name.as_str(),
                "' is already installed",
            ),
            TajError::NotInstalled { name } => crate::text::concat3(
                "package '",
                name.as_str(),
                "' is not installed",
            ),
            TajError::UnknownSource { source, name } => {
                let mut r = crate::text::concat3("unknown source '", source.as_str(), "' for package '");
                r.append(name.as_str());
                r.append("'");
                r
            },
            TajError::DependencyCycle { name } => crate::text::concat3(
                "dependency cycle detected at '",
                name.as_str(),
                "'",
            ),
            TajError::MissingState { name } => crate::text::concat(
                "missing state for ",
                name.as_str(),
            ),
            TajError::FileConflicts { conflicts } => {
                let mut r = crate::text::owned("file conflict(s) detected:");
                let mut i: usize = 0;
                while i < conflicts.len()
                    invariant
                        i <= conflicts.len(),
                        r@ == "file conflict(s) detected:"@ + conflict_lines(
                            conflicts@.subrange(0, i as int).map_values(|s: String| s@),
                        ),
                    decreases conflicts.len() - i,
                {
                    let ghost before = conflicts@.subrange(0, i as int).map_values(
                        |s: String| s@,
                    );
                    r.append("\n- ");
                    r.append(conflicts[i].as_str());
                    i = i + 1;
                    let ghost after = conflicts@.subrange(0, i as int).map_values(
                        |s: String| s@,
                    );
                    assert(after.drop_last() =~= before);
                    assert(after.last() == conflicts@[i - 1]@);
                    assert(r@ =~= "file conflict(s) detected:"@ + conflict_lines(after));
                }
                assert(conflicts@.subrange(0, conflicts.len() as int) =~= conflicts@);
                r
            },
            TajError::UnsupportedInstallMethod { method } => crate::text::concat(
                "unsupported install method: ",
                method.as_str(),
            ),
            TajError::MissingBuildDependencies { report } => crate::text::owned(report.as_str()),
            TajError::DuplicateStagedPath { path } => crate::text::concat(
                "duplicate staged path: ",
                path.as_str(),
            ),
            TajError::NothingStaged { dir } => crate::text::concat(
                "install produced no files in ",
                dir.as_str(),
            ),
            TajError::NoTajFile { name } => crate::text::concat3(
                "no taj file found for ",
                name.as_str(),
                " in mirror",
            ),
            TajError::NoHttpTajFile { name, bases } => {
                let mut r = crate::text::concat3(
                    "no taj file found for '",
                    name.as_str(),
                    "' in HTTP mirror (bases: ",
                );
                r.append(crate::text::join_strings(bases, ", ").as_str());
                r.append(")");
                r
            },
            TajError::DestinationExists { path } => crate::text::concat(
                "destination already exists: ",
                path.as_str(),
            ),
            TajError::DestinationIsDirectory { path } => crate::text::concat(
                "destination is a directory: ",
                path.as_str(),
            ),
            TajError::NoExecutable => crate::text::owned("no executable output found"),
            TajError::BuildOutputMissing { tool, path } => crate::text::concat3(
                tool.as_str(),
                " did not produce ",
                path.as_str(),
            ),
            TajError::NoSources { language, tool } => {
                let mut r = crate::text::concat3("no ", language.as_str(), " sources found for ");
                r.append(tool.as_str());
                r.append(" build");
                r
            },
            TajError::UnsupportedBuildMethod { method } => crate::text::concat(
                "no build procedure for method ",
                method.as_str(),
            ),
            TajError::NoMainRs => crate::text::owned("no main.rs found for rustc build"),
            TajError::InvalidManifest { detail } => crate::text::concat(
                "failed to parse Cargo.toml: ",
                detail.as_str(),
            ),
            TajError::RequiresRoot { what, path } => {
                let mut r = crate::text::concat3(what.as_str(), " ", path.as_str());
                r.append(" requires root; run with sudo or set install_dir in config");
                r
            },
        }
    }
}

} // verus!
