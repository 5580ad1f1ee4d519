//! Install prefixes: where an install step puts files, and making a build
//! configure for that prefix.
use vstd::prelude::*;
use crate::buildspec::{BuildMethod, BuildSpec};
use crate::error::TajError;
use crate::order::views;
use crate::path::{join, parent, parent_of, path_join};
use crate::tajfile::InstallSpec;
use crate::text::{concat, owned, starts_with, str_eq, str_starts_with};

verus! {

/// The default install prefix: the parent of the install directory, or the
/// directory itself when it has none.
pub open spec fn install_prefix_of(install_dir: Seq<char>) -> Seq<char> {
    match parent_of(install_dir) {
        Some(p) => p,
        None => install_dir,
    }
}

/// The default install prefix (see [`install_prefix_of`]).
pub fn install_prefix(install_dir: &str) -> (r: String)
    ensures
        r@ == install_prefix_of(install_dir@),
{
    match parent(install_dir) {
        Some(p) => p,
        None => owned(install_dir),
    }
}

/// The prefix of an install step: its own, else the default.
pub fn resolve_install_prefix(install_dir: &str, install_spec: &InstallSpec) -> (r: String)
    ensures
        r@ == match install_spec.prefix {
            Some(p) => p@,
            None => install_prefix_of(install_dir@),
        },
{
    match &install_spec.prefix {
        Some(p) => p.clone(),
        None => install_prefix(install_dir),
    }
}

/// Some argument is `flag` itself or starts with `flag=`.
pub open spec fn has_flag_with_value_spec(args: Seq<Seq<char>>, flag: Seq<char>) -> bool {
    exists|i: int|
        0 <= i < args.len() && (#[trigger] args[i] == flag || starts_with(args[i], flag + "="@))
}

/// Whether some argument sets `flag` (see [`has_flag_with_value_spec`]).
pub fn has_flag_with_value(args: &Vec<String>, flag: &str) -> (r: bool)
    ensures
        r == has_flag_with_value_spec(views(args@), flag@),
{
    let with_eq = concat(flag, "=");
    let mut i: usize = 0;
    while i < args.len()
        invariant
            i <= args.len(),
            with_eq@ == flag@ + "="@,
            forall|j: int|
                0 <= j < i ==> !(#[trigger] views(args@)[j] == flag@ || starts_with(
                    views(args@)[j],
                    flag@ + "="@,
                )),
        decreases args.len() - i,
    {
        if str_eq(args[i].as_str(), flag) || str_starts_with(args[i].as_str(), with_eq.as_str()) {
            assert(views(args@)[i as int] == args@[i as int]@);
            return true;
        }
        i = i + 1;
    }
    false
}

/// Whether some argument sets CMake's install prefix.
pub fn has_cmake_prefix_arg(args: &Vec<String>) -> (r: bool)
    ensures
        r == has_flag_with_value_spec(views(args@), "-DCMAKE_INSTALL_PREFIX"@),
{
    has_flag_with_value(args, "-DCMAKE_INSTALL_PREFIX")
}

/// The build arguments made to configure for `prefix`: autotools and meson
/// get `--prefix=PREFIX` and CMake `-DCMAKE_INSTALL_PREFIX=PREFIX`, unless the
/// arguments set it already; other methods are left alone.
pub open spec fn prefixed_args(method: BuildMethod, args: Seq<Seq<char>>, prefix: Seq<char>) -> Seq<
    Seq<char>,
> {
    match method {
        BuildMethod::Autotools | BuildMethod::Meson => if has_flag_with_value_spec(
            args,
            "--prefix"@,
        ) {
            args
        } else {
            args.push("--prefix="@ + prefix)
        },
        BuildMethod::Cmake => if has_flag_with_value_spec(args, "-DCMAKE_INSTALL_PREFIX"@) {
            args
        } else {
            args.push("-DCMAKE_INSTALL_PREFIX="@ + prefix)
        },
        _ => args,
    }
}

/// The build specification adjusted to install under `prefix` (see
/// [`prefixed_args`]); everything else is kept.
pub fn build_spec_with_prefix(spec: &BuildSpec, prefix: &str) -> (r: BuildSpec)
    requires
        spec.wf(),
    ensures
        r.wf(),
        r@.args == prefixed_args(spec.method, spec@.args, prefix@),
        r@.method == spec@.method,
        r@.bin == spec@.bin,
        r@.subdir == spec@.subdir,
        r@.build_dir == spec@.build_dir,
        r@.env == spec@.env,
{
    let mut adjusted = spec.duplicate();
    match adjusted.method {
        BuildMethod::Autotools | BuildMethod::Meson => {
            if !has_flag_with_value(&adjusted.args, "--prefix") {
                let ghost before = adjusted.args@;
                adjusted.args.push(concat("--prefix=", prefix));
                assert(views(adjusted.args@) =~= views(before).push("--prefix="@ + prefix@));
            }
        },
        BuildMethod::Cmake => {
            if !has_cmake_prefix_arg(&adjusted.args) {
                let ghost before = adjusted.args@;
                adjusted.args.push(concat("-DCMAKE_INSTALL_PREFIX=", prefix));
                assert(views(adjusted.args@) =~= views(before).push(
                    "-DCMAKE_INSTALL_PREFIX="@ + prefix@,
                ));
            }
        },
        _ => {},
    }
    adjusted
}

/// A system directory that only root may install into: under `/usr`, or
/// starting with `/bin` or `/sbin`.
pub open spec fn is_system_dir_spec(p: Seq<char>) -> bool {
    starts_with(p, "/usr/"@) || p == "/usr"@ || starts_with(p, "/bin"@) || starts_with(p, "/sbin"@)
}

/// Whether a path is a system directory (see [`is_system_dir_spec`]).
pub fn is_system_dir(path: &str) -> (r: bool)
    ensures
        r == is_system_dir_spec(path@),
{
    str_starts_with(path, "/usr/") || str_eq(path, "/usr") || str_starts_with(path, "/bin")
        || str_starts_with(path, "/sbin")
}

/// Refuses to install into a system directory unless running as root:
/// `what` (`install dir` or `install prefix`) names the directory in the
/// error.
pub fn check_root_allowed(what: &str, path: &str, is_root: bool) -> (r: Result<(), TajError>)
    ensures
        is_system_dir_spec(path@) && !is_root ==> (r matches Err(TajError::RequiresRoot { what: w, path: p })
            && w@ == what@ && p@ == path@),
        !(is_system_dir_spec(path@) && !is_root) ==> r is Ok,
{
    if is_system_dir(path) && !is_root {
        Err(TajError::RequiresRoot { what: owned(what), path: owned(path) })
    } else {
        Ok(())
    }
}

/// The binary name and path recorded for a package installed through an
/// install step: the build's binary name or else the package's, and the
/// expected binary under the prefix when it exists (`bin_exists`), else the
/// prefix itself.
pub fn staged_binary(prefix: &str, bin: &Option<String>, name: &str, bin_exists: bool) -> (r: (
    String,
    String,
))
    ensures
        r.0@ == match bin {
            Some(b) => b@,
            None => name@,
        },
        bin_exists ==> r.1@ == path_join(path_join(prefix@, "bin"@), r.0@),
        !bin_exists ==> r.1@ == prefix@,
{
    let bin_name = match bin {
        Some(b) => b.clone(),
        None => owned(name),
    };
    let bin_path = if bin_exists {
        primary_bin_path(prefix, Some(bin_name.as_str()), name)
    } else {
        owned(prefix)
    };
    (bin_name, bin_path)
}

/// Where an installed package's main binary is expected: `bin/NAME` under
/// the prefix, NAME being the binary's name or else the package's.
pub fn primary_bin_path(prefix: &str, bin_name: Option<&str>, name: &str) -> (r: String)
    ensures
        r@ == path_join(
            path_join(prefix@, "bin"@),
            match bin_name {
                Some(b) => b@,
                None => name@,
            },
        ),
{
    let bin_dir = join(prefix, "bin");
    match bin_name {
        Some(b) => join(bin_dir.as_str(), b),
        None => join(bin_dir.as_str(), name),
    }
}

/// A path without its root, as `Path::strip_prefix("/")` gives it.
pub uninterp spec fn strip_root_of(p: Seq<char>) -> Seq<char>;

/// `Path::strip_prefix("/")`: it succeeds exactly for an absolute path (one
/// that has the root as its first component), with the result named
/// [`strip_root_of`].
#[verifier::external_body]
fn strip_root(p: &str) -> (r: Option<String>)
    ensures
        r is Some <==> crate::path::is_absolute(p@),
        r matches Some(s) ==> s@ == strip_root_of(p@),
{
    match std::path::Path::new(p).strip_prefix("/") {
        Ok(rest) => Some(rest.to_string_lossy().into_owned()),
        Err(_) => None,
    }
}

/// Where an install step into `stage_root` puts the files of an absolute
/// `prefix`: the prefix re-rooted under the stage root. `None` for a
/// relative prefix; the stage root itself is used when this does not exist.
pub fn stage_payload_candidate(stage_root: &str, prefix: &str) -> (r: Option<String>)
    ensures
        r is Some <==> crate::path::is_absolute(prefix@),
        r matches Some(s) ==> s@ == path_join(stage_root@, strip_root_of(prefix@)),
{
    if crate::path::path_is_absolute(prefix) {
        match strip_root(prefix) {
            Some(rel) => Some(join(stage_root, rel.as_str())),
            None => None,
        }
    } else {
        None
    }
}

/// The root of the staged files: the re-rooted prefix when there is one and
/// it exists (`candidate_exists`), else the stage root.
pub fn stage_payload_root(stage_root: &str, prefix: &str, candidate_exists: bool) -> (r: String)
    ensures
        crate::path::is_absolute(prefix@) && candidate_exists ==> r@ == path_join(
            stage_root@,
            strip_root_of(prefix@),
        ),
        !(crate::path::is_absolute(prefix@) && candidate_exists) ==> r@ == stage_root@,
{
    if candidate_exists {
        if let Some(c) = stage_payload_candidate(stage_root, prefix) {
            return c;
        }
    }
    owned(stage_root)
}

} // verus!
