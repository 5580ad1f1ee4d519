//! Recognising the build system of a repository that has no `.taj` file.
use vstd::prelude::*;
use crate::buildspec::{BuildMethod, BuildSpec, cargo_bin_of, cargo_manifest_of, cargo_bin_name};
use crate::envmap::EnvMap;
use crate::error::TajError;
use crate::order::views;
use crate::state::opt_view;
use crate::text::{ascii_lower, eq_ignore_ascii_case, owned, str_eq_ignore_ascii_case};

verus! {

/// What is found at the top of a repository.
#[derive(Debug)]
pub struct RepoProbe {
    /// The text of `Cargo.toml`, if there is one.
    pub cargo_manifest: Option<String>,
    /// `go.mod` exists.
    pub go_mod: bool,
    /// `meson.build` exists.
    pub meson_build: bool,
    /// `CMakeLists.txt` exists.
    pub cmake_lists: bool,
    /// `Makefile` or `makefile` exists.
    pub makefile: bool,
    /// The extensions of the regular files at the top (those that are UTF-8).
    pub file_extensions: Vec<String>,
    /// `src/main.rs` or `main.rs` exists.
    pub main_rs: bool,
}

/// Some file has one of the extensions, compared up to ASCII case.
pub open spec fn has_extension_spec(exts: Seq<Seq<char>>, allowed: Seq<Seq<char>>) -> bool {
    exists|i: int, j: int|
        0 <= i < exts.len() && 0 <= j < allowed.len() && eq_ignore_ascii_case(
            #[trigger] exts[i],
            #[trigger] allowed[j],
        )
}

/// Whether some file has one of the extensions (see [`has_extension_spec`]).
pub fn has_extension(file_extensions: &Vec<String>, extensions: &Vec<String>) -> (r: bool)
    ensures
        r == has_extension_spec(views(file_extensions@), views(extensions@)),
{
    let mut i: usize = 0;
    while i < file_extensions.len()
        invariant
            i <= file_extensions.len(),
            forall|a: int, b: int|
                0 <= a < i && 0 <= b < extensions@.len() ==> !eq_ignore_ascii_case(
                    #[trigger] views(file_extensions@)[a],
                    #[trigger] views(extensions@)[b],
                ),
        decreases file_extensions.len() - i,
    {
        let mut j: usize = 0;
        while j < extensions.len()
            invariant
                i < file_extensions.len(),
                j <= extensions.len(),
                forall|a: int, b: int|
                    0 <= a < i && 0 <= b < extensions@.len() ==> !eq_ignore_ascii_case(
                        #[trigger] views(file_extensions@)[a],
                        #[trigger] views(extensions@)[b],
                    ),
                forall|b: int|
                    0 <= b < j ==> !eq_ignore_ascii_case(
                        views(file_extensions@)[i as int],
                        #[trigger] views(extensions@)[b],
                    ),
            decreases extensions.len() - j,
        {
            if str_eq_ignore_ascii_case(file_extensions[i].as_str(), extensions[j].as_str()) {
                assert(eq_ignore_ascii_case(
                    views(file_extensions@)[i as int],
                    views(extensions@)[j as int],
                ));
                return true;
            }
            j = j + 1;
        }
        i = i + 1;
    }
    false
}

/// The build system that a probe shows, in the order Cargo, Go, meson,
/// CMake, make, C++ sources, C sources, a Rust `main.rs`; `None` when none.
pub open spec fn detected_method(p: RepoProbe) -> Option<BuildMethod> {
    if p.cargo_manifest is Some {
        Some(BuildMethod::Cargo)
    } else if p.go_mod {
        Some(BuildMethod::Go)
    } else if p.meson_build {
        Some(BuildMethod::Meson)
    } else if p.cmake_lists {
        Some(BuildMethod::Cmake)
    } else if p.makefile {
        Some(BuildMethod::Make)
    } else if has_extension_spec(views(p.file_extensions@), seq!["cpp"@, "cc"@, "cxx"@]) {
        Some(BuildMethod::Gpp)
    } else if has_extension_spec(views(p.file_extensions@), seq!["c"@]) {
        Some(BuildMethod::Gcc)
    } else if p.main_rs {
        Some(BuildMethod::Rustc)
    } else {
        None
    }
}

/// A build specification with no arguments, subdirectory, build directory
/// or environment.
pub open spec fn plain_spec(s: BuildSpec, method: BuildMethod, bin: Option<Seq<char>>) -> bool {
    &&& s.wf()
    &&& s@.method == method
    &&& s@.args == Seq::<Seq<char>>::empty()
    &&& s@.bin == bin
    &&& s@.subdir is None
    &&& s@.build_dir is None
    &&& s@.env == Map::<Seq<char>, Seq<char>>::empty()
}

fn plain(method: BuildMethod, bin: Option<String>) -> (r: BuildSpec)
    ensures
        plain_spec(r, method, opt_view(bin)),
{
    let args: Vec<String> = Vec::new();
    assert(views(args@) =~= Seq::<Seq<char>>::empty());
    BuildSpec { method, args, bin, subdir: None, build_dir: None, env: EnvMap::new() }
}

/// What detecting the build system gives, for a probe of a repository in
/// directory `dir` without a `.taj` file. Cargo builds the manifest's binary
/// (else `name_hint`); meson, CMake and make name no binary; the others
/// build `name_hint`. A manifest that is not TOML, or nothing recognised, is
/// an error.
pub open spec fn detect_ok(
    probe: RepoProbe,
    name_hint: Seq<char>,
    dir: Seq<char>,
    r: Result<BuildSpec, TajError>,
) -> bool {
    &&& probe.cargo_manifest matches Some(c) ==> match cargo_manifest_of(c@) {
        Some(m) => r matches Ok(s) && plain_spec(
            s,
            BuildMethod::Cargo,
            Some(
                match cargo_bin_of(m) {
                    Some(b) => b,
                    None => name_hint,
                },
            ),
        ),
        None => r matches Err(TajError::InvalidManifest { .. }),
    }
    &&& probe.cargo_manifest is None ==> match detected_method(probe) {
        Some(m) => r matches Ok(s) && plain_spec(
            s,
            m,
            if m == BuildMethod::Meson || m == BuildMethod::Cmake || m == BuildMethod::Make {
                None
            } else {
                Some(name_hint)
            },
        ),
        None => r matches Err(TajError::NoBuildSystem { dir: d }) && d@ == dir,
    }
}

/// The build specification for a repository (in directory `dir`) without a
/// `.taj` file, by what the probe found (see [`detect_ok`]).
pub fn detect_build_spec(probe: &RepoProbe, name_hint: &str, dir: &str) -> (r: Result<
    BuildSpec,
    TajError,
>)
    ensures
        detect_ok(*probe, name_hint@, dir@, r),
{
    if let Some(content) = &probe.cargo_manifest {
        let bin = match cargo_bin_name(content.as_str())? {
            Some(b) => b,
            None => owned(name_hint),
        };
        return Ok(plain(BuildMethod::Cargo, Some(bin)));
    }
    if probe.go_mod {
        return Ok(plain(BuildMethod::Go, Some(owned(name_hint))));
    }
    if probe.meson_build {
        return Ok(plain(BuildMethod::Meson, None));
    }
    if probe.cmake_lists {
        return Ok(plain(BuildMethod::Cmake, None));
    }
    if probe.makefile {
        return Ok(plain(BuildMethod::Make, None));
    }
    let mut cpp: Vec<String> = Vec::new();
    cpp.push(owned("cpp"));
    cpp.push(owned("cc"));
    cpp.push(owned("cxx"));
    assert(views(cpp@) =~= seq!["cpp"@, "cc"@, "cxx"@]);
    if has_extension(&probe.file_extensions, &cpp) {
        return Ok(plain(BuildMethod::Gpp, Some(owned(name_hint))));
    }
    let mut c: Vec<String> = Vec::new();
    c.push(owned("c"));
    assert(views(c@) =~= seq!["c"@]);
    if has_extension(&probe.file_extensions, &c) {
        return Ok(plain(BuildMethod::Gcc, Some(owned(name_hint))));
    }
    if probe.main_rs {
        return Ok(plain(BuildMethod::Rustc, Some(owned(name_hint))));
    }
    Err(TajError::NoBuildSystem { dir: owned(dir) })
}

} // verus!
