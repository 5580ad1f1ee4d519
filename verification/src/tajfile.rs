//! Package descriptions (`.taj` files).
use vstd::prelude::*;
use crate::buildspec::{BuildMethod, BuildSpec, lowercase_of, method_named};
use crate::envmap::EnvMap;
use crate::error::TajError;
use crate::order::views;
use crate::state::opt_view;
use crate::text::{clone_opt, clone_strings, eq_ignore_ascii_case, str_eq_ignore_ascii_case};

verus! {

/// A package description.
#[derive(Debug)]
pub struct TajFile {
    pub name: Option<String>,
    pub category: Option<String>,
    pub repo: String,
    pub git_ref: Option<String>,
    pub build: String,
    pub build_args: Vec<String>,
    pub build_dir: Option<String>,
    pub bin: Option<String>,
    pub subdir: Option<String>,
    pub env: Option<EnvMap>,
    pub deps: Option<TajDeps>,
    pub depends: Option<Vec<String>>,
    pub install: Option<InstallSpec>,
}

/// Build-time requirements and hints for installing them.
#[derive(Debug)]
pub struct TajDeps {
    pub tools: Option<Vec<String>>,
    pub pkg_config: Option<Vec<String>>,
    /// Install hints: package lists by package manager, each key once.
    pub packages: Option<Vec<(String, Vec<String>)>>,
    pub message: Option<String>,
}

/// An install step into a staging directory.
#[derive(Debug)]
pub struct InstallSpec {
    pub method: String,
    pub args: Option<Vec<String>>,
    pub env: Option<EnvMap>,
    pub prefix: Option<String>,
    pub destdir: Option<String>,
}

/// An optional environment map is well formed.
pub open spec fn opt_env_wf(e: Option<EnvMap>) -> bool {
    e matches Some(m) ==> m.wf()
}

impl InstallSpec {
    pub open spec fn wf(&self) -> bool {
        opt_env_wf(self.env)
    }
}

/// The views of install hints.
pub open spec fn hint_views(p: Seq<(String, Vec<String>)>) -> Seq<(Seq<char>, Seq<Seq<char>>)> {
    p.map_values(|e: (String, Vec<String>)| (e.0@, views(e.1@)))
}

impl TajDeps {
    pub open spec fn wf(&self) -> bool {
        self.packages matches Some(p) ==> crate::assoc::keys_distinct(hint_views(p@))
    }
}

impl TajFile {
    /// The maps inside the description are well formed.
    pub open spec fn wf(&self) -> bool {
        &&& opt_env_wf(self.env)
        &&& (self.install matches Some(i) ==> i.wf())
    }

    /// The build specification that the description gives: its method, in any
    /// letter case, must be known.
    pub fn to_build_spec(&self) -> (r: Result<BuildSpec, TajError>)
        requires
            self.wf(),
        ensures
            method_named(lowercase_of(self.build@)) is None ==> (r matches Err(
                TajError::UnknownBuildMethod { value },
            ) && value@ == self.build@),
            method_named(lowercase_of(self.build@)) matches Some(m) ==> (r matches Ok(spec) && {
                &&& spec.wf()
                &&& spec@.method == m
                &&& spec@.args == views(self.build_args@)
                &&& spec@.bin == opt_view(self.bin)
                &&& spec@.subdir == opt_view(self.subdir)
                &&& spec@.build_dir == opt_view(self.build_dir)
                &&& spec@.env == match self.env {
                    Some(e) => e@,
                    None => Map::empty(),
                }
            }),
    {
        let method = BuildMethod::parse(self.build.as_str())?;
        let env = match &self.env {
            Some(e) => e.duplicate(),
            None => EnvMap::new(),
        };
        Ok(BuildSpec {
            method,
            args: clone_strings(&self.build_args),
            bin: clone_opt(&self.bin),
            subdir: clone_opt(&self.subdir),
            build_dir: clone_opt(&self.build_dir),
            env,
        })
    }
}

/// Whether a description is a meta package (build method `meta`, in any
/// ASCII case), which installs only its dependencies.
pub fn is_meta_build(taj: &TajFile) -> (r: bool)
    ensures
        r == eq_ignore_ascii_case(taj.build@, "meta"@),
{
    str_eq_ignore_ascii_case(taj.build.as_str(), "meta")
}

} // verus!
