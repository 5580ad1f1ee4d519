//! Build methods and build specifications.
use vstd::prelude::*;
use crate::envmap::EnvMap;
use crate::error::TajError;
use crate::state::opt_view;
use crate::text::{clone_opt, clone_strings, str_eq, owned};
use crate::order::views;

verus! {

/// How a package is built.
#[derive(Debug, Clone, Copy, PartialEq, Eq, Structural)]
pub enum BuildMethod {
    Cargo,
    Go,
    Make,
    Cmake,
    Autotools,
    Meson,
    Gcc,
    Gpp,
    Rustc,
}

/// The build method that a lowercase name stands for: `cargo`, `go`,
/// `make`, `cmake`, `autotools`, `meson`, `gcc` or `c`, `g++`, `gpp` or
/// `cpp`, `rustc`.
pub open spec fn method_named(n: Seq<char>) -> Option<BuildMethod> {
    if n == "cargo"@ {
        Some(BuildMethod::Cargo)
    } else if n == "go"@ {
        Some(BuildMethod::Go)
    } else if n == "make"@ {
        Some(BuildMethod::Make)
    } else if n == "cmake"@ {
        Some(BuildMethod::Cmake)
    } else if n == "autotools"@ {
        Some(BuildMethod::Autotools)
    } else if n == "meson"@ {
        Some(BuildMethod::Meson)
    } else if n == "gcc"@ || n == "c"@ {
        Some(BuildMethod::Gcc)
    } else if n == "g++"@ || n == "gpp"@ || n == "cpp"@ {
        Some(BuildMethod::Gpp)
    } else if n == "rustc"@ {
        Some(BuildMethod::Rustc)
    } else {
        None
    }
}

/// The Unicode lowercase form of a string, as `str::to_lowercase` gives it.
pub uninterp spec fn lowercase_of(s: Seq<char>) -> Seq<char>;

/// `str::to_lowercase`; its result is named [`lowercase_of`].
#[verifier::external_body]
pub(crate) fn to_lowercase(s: &str) -> (r: String)
    ensures
        r@ == lowercase_of(s@),
{
    s.to_lowercase()
}

impl BuildMethod {
    /// The method that a lowercase name stands for (see [`method_named`]).
    pub fn from_lowercase(name: &str) -> (r: Option<BuildMethod>)
        ensures
            r == method_named(name@),
    {
        if str_eq(name, "cargo") {
            Some(BuildMethod::Cargo)
        } else if str_eq(name, "go") {
            Some(BuildMethod::Go)
        } else if str_eq(name, "make") {
            Some(BuildMethod::Make)
        } else if str_eq(name, "cmake") {
            Some(BuildMethod::Cmake)
        } else if str_eq(name, "autotools") {
            Some(BuildMethod::Autotools)
        } else if str_eq(name, "meson") {
            Some(BuildMethod::Meson)
        } else if str_eq(name, "gcc") || str_eq(name, "c") {
            Some(BuildMethod::Gcc)
        } else if str_eq(name, "g++") || str_eq(name, "gpp") || str_eq(name, "cpp") {
            Some(BuildMethod::Gpp)
        } else if str_eq(name, "rustc") {
            Some(BuildMethod::Rustc)
        } else {
            None
        }
    }

    /// Reads a build method name in any letter case; an unknown name is an
    /// error that carries the name as given.
    pub fn parse(value: &str) -> (r: Result<BuildMethod, TajError>)
        ensures
            method_named(lowercase_of(value@)) matches Some(m) ==> r == Ok::<
                BuildMethod,
                TajError,
            >(m),
            method_named(lowercase_of(value@)) is None ==> (r matches Err(
                TajError::UnknownBuildMethod { value: v },
            ) && v@ == value@),
    {
        let lower = to_lowercase(value);
        match BuildMethod::from_lowercase(lower.as_str()) {
            Some(m) => Ok(m),
            None => Err(TajError::UnknownBuildMethod { value: owned(value) }),
        }
    }
}

/// Everything needed to build a package.
#[derive(Debug)]
pub struct BuildSpec {
    pub method: BuildMethod,
    pub args: Vec<String>,
    pub bin: Option<String>,
    pub subdir: Option<String>,
    pub build_dir: Option<String>,
    pub env: EnvMap,
}

/// The mathematical value of a [`BuildSpec`].
pub struct BuildSpecView {
    pub method: BuildMethod,
    pub args: Seq<Seq<char>>,
    pub bin: Option<Seq<char>>,
    pub subdir: Option<Seq<char>>,
    pub build_dir: Option<Seq<char>>,
    pub env: Map<Seq<char>, Seq<char>>,
}

impl View for BuildSpec {
    type V = BuildSpecView;

    open spec fn view(&self) -> BuildSpecView {
        BuildSpecView {
            method: self.method,
            args: views(self.args@),
            bin: opt_view(self.bin),
            subdir: opt_view(self.subdir),
            build_dir: opt_view(self.build_dir),
            env: self.env@,
        }
    }
}

impl BuildSpec {
    /// The environment map is well formed.
    pub open spec fn wf(&self) -> bool {
        self.env.wf()
    }

    /// A copy of the specification.
    pub fn duplicate(&self) -> (r: BuildSpec)
        requires
            self.wf(),
        ensures
            r.wf(),
            r@ == self@,
    {
        BuildSpec {
            method: self.method,
            args: clone_strings(&self.args),
            bin: clone_opt(&self.bin),
            subdir: clone_opt(&self.subdir),
            build_dir: clone_opt(&self.build_dir),
            env: self.env.duplicate(),
        }
    }
}

// ---------------------------------------------------------------------------
// Cargo manifests
// ---------------------------------------------------------------------------

/// What the binary name of a Cargo package is taken from: the `name` of
/// each `[[bin]]` entry (`None` for an entry without a string name) and the
/// `package.name`.
#[derive(Debug)]
pub struct CargoManifest {
    pub bin_names: Vec<Option<String>>,
    pub package_name: Option<String>,
}

/// The mathematical value of a [`CargoManifest`].
pub struct CargoManifestView {
    pub bin_names: Seq<Option<Seq<char>>>,
    pub package_name: Option<Seq<char>>,
}

impl View for CargoManifest {
    type V = CargoManifestView;

    open spec fn view(&self) -> CargoManifestView {
        CargoManifestView {
            bin_names: self.bin_names@.map_values(|o: Option<String>| opt_view(o)),
            package_name: opt_view(self.package_name),
        }
    }
}

/// What the TOML text `content` says of the binary names, or `None` when it
/// is not valid TOML.
pub uninterp spec fn cargo_manifest_of(content: Seq<char>) -> Option<CargoManifestView>;

#[verifier::external_type_specification]
#[verifier::external_body]
pub struct ExTomlError(toml::de::Error);

/// `toml::from_str::<toml::Value>` on the text of a `Cargo.toml`, keeping
/// the `name` strings of the `bin` array and `package.name`. Its result is
/// named [`cargo_manifest_of`]: the names when the text parses, an error
/// when it does not.
#[verifier::external_body]
fn parse_cargo_manifest(content: &str) -> (r: Result<CargoManifest, toml::de::Error>)
    ensures
        r matches Ok(m) ==> cargo_manifest_of(content@) == Some(m@),
        r is Err ==> cargo_manifest_of(content@) is None,
{
    let value: toml::Value = toml::from_str(content)?;
    let name = |v: &toml::Value| v.get("name").and_then(toml::Value::as_str).map(String::from);
    let bin_names = match value.get("bin").and_then(toml::Value::as_array) {
        Some(bins) => bins.iter().map(name).collect(),
        None => Vec::new(),
    };
    Ok(CargoManifest { bin_names, package_name: value.get("package").and_then(name) })
}

/// The text of a TOML parse error (`toml::de::Error`'s `Display`).
#[verifier::external_body]
fn toml_error_text(e: &toml::de::Error) -> String {
    e.to_string()
}

/// The first name among `bins`, if any entry has one.
pub open spec fn first_named(bins: Seq<Option<Seq<char>>>) -> Option<Seq<char>>
    decreases bins.len(),
{
    if bins.len() == 0 {
        None
    } else if bins[0] is Some {
        bins[0]
    } else {
        first_named(bins.drop_first())
    }
}

/// The binary a Cargo package builds: the first named `[[bin]]`, else the
/// package name.
pub open spec fn cargo_bin_of(m: CargoManifestView) -> Option<Seq<char>> {
    match first_named(m.bin_names) {
        Some(n) => Some(n),
        None => m.package_name,
    }
}

/// The binary name of a parsed manifest (see [`cargo_bin_of`]).
pub fn manifest_bin_name(m: &CargoManifest) -> (r: Option<String>)
    ensures
        opt_view(r) == cargo_bin_of(m@),
{
    let mut i: usize = 0;
    let n = m.bin_names.len();
    assert(m@.bin_names.subrange(0, n as int) =~= m@.bin_names);
    while i < n
        invariant
            n == m.bin_names@.len(),
            i <= n,
            first_named(m@.bin_names) == first_named(m@.bin_names.subrange(i as int, n as int)),
        decreases n - i,
    {
        let ghost rest = m@.bin_names.subrange(i as int, n as int);
        if let Some(name) = &m.bin_names[i] {
            assert(rest[0] == m@.bin_names[i as int]);
            return Some(name.clone());
        }
        assert(rest.drop_first() =~= m@.bin_names.subrange(i + 1, n as int));
        i = i + 1;
    }
    clone_opt(&m.package_name)
}

/// The binary name that the `Cargo.toml` text `content` gives (see
/// [`cargo_bin_of`]); text that is not TOML is an error.
pub fn cargo_bin_name(content: &str) -> (r: Result<Option<String>, TajError>)
    ensures
        match cargo_manifest_of(content@) {
            Some(m) => r matches Ok(b) && opt_view(b) == cargo_bin_of(m),
            None => r matches Err(TajError::InvalidManifest { .. }),
        },
{
    match parse_cargo_manifest(content) {
        Ok(m) => Ok(manifest_bin_name(&m)),
        Err(e) => Err(TajError::InvalidManifest { detail: toml_error_text(&e) }),
    }
}

} // verus!
