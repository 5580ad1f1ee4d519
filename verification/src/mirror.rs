//! The package mirror: how it is reached and where a package's `.taj` file
//! is looked for.
use vstd::prelude::*;
use crate::config::Config;
use crate::error::TajError;
use crate::order::views;
use crate::path::{join, path_join};
use crate::text::{after_first, before_first, chars_find, chars_of, chars_starts_with,
    chars_trim_char, chars_trim_end_char, chars_trim_end_str, concat, concat3, contains_str,
    ends_with, eq_ignore_ascii_case, lemma_split_first, owned, str_ends_with,
    str_eq_ignore_ascii_case, string_of, strip_prefix, sub_chars, trim, trim_char,
    trim_end_char, trim_end_str, trim_ws};

verus! {

/// How the mirror is reached.
#[derive(Debug, Clone, Copy, PartialEq, Eq, Structural)]
pub enum MirrorMode {
    /// A git checkout of the mirror repository.
    Git,
    /// Plain HTTP(S) downloads of single files.
    Http,
}

/// `http`, `https` and `url` (in any ASCII case) select HTTP; anything else,
/// or nothing, selects git.
pub open spec fn mirror_mode_of(mode: Option<Seq<char>>) -> MirrorMode {
    match mode {
        Some(m) => if eq_ignore_ascii_case(m, "http"@) || eq_ignore_ascii_case(m, "https"@)
            || eq_ignore_ascii_case(m, "url"@) {
            MirrorMode::Http
        } else {
            MirrorMode::Git
        },
        None => MirrorMode::Git,
    }
}

/// The mirror mode of a configuration.
pub fn mirror_mode(config: &Config) -> (r: MirrorMode)
    ensures
        r == mirror_mode_of(crate::state::opt_view(config.mirror_mode)),
{
    match &config.mirror_mode {
        Some(m) => {
            if str_eq_ignore_ascii_case(m.as_str(), "http") || str_eq_ignore_ascii_case(
                m.as_str(),
                "https",
            ) || str_eq_ignore_ascii_case(m.as_str(), "url") {
                MirrorMode::Http
            } else {
                MirrorMode::Git
            }
        },
        None => MirrorMode::Git,
    }
}

/// A repository URL without surrounding whitespace, trailing slashes and a
/// trailing `.git`.
pub open spec fn bare_repo_url(url: Seq<char>) -> Seq<char> {
    trim_end_str(trim_end_char(trim_ws(url), '/'), ".git"@)
}

/// The part of a bare GitHub repository URL after the host.
pub open spec fn github_path(url: Seq<char>) -> Option<Seq<char>> {
    match strip_prefix(url, "https://github.com/"@) {
        Some(r) => Some(r),
        None => strip_prefix(url, "http://github.com/"@),
    }
}

/// `base`, followed by `/` and the packages directory without surrounding
/// slashes when that is not empty.
pub open spec fn with_packages_dir(base: Seq<char>, packages_dir: Seq<char>) -> Seq<char> {
    let d = trim_char(packages_dir, '/');
    if d.len() > 0 {
        base + "/"@ + d
    } else {
        base
    }
}

/// The `raw.githubusercontent.com` address of the packages directory of a
/// GitHub mirror repository on `branch`; `None` when the repository URL is
/// not a GitHub URL with an owner and a repository name.
pub open spec fn github_raw_base_of(repo_url: Seq<char>, branch: Seq<char>, packages_dir: Seq<char>) -> Option<
    Seq<char>,
> {
    match github_path(bare_repo_url(repo_url)) {
        None => None,
        Some(rest) => {
            let owner = before_first(rest, '/');
            match after_first(rest, '/') {
                None => None,
                Some(tail) => {
                    let repo = before_first(tail, '/');
                    if owner.len() == 0 || repo.len() == 0 {
                        None
                    } else {
                        Some(
                            with_packages_dir(
                                "https://raw.githubusercontent.com/"@ + owner + "/"@
                                    + trim_end_str(repo, ".git"@) + "/"@ + branch,
                                packages_dir,
                            ),
                        )
                    }
                },
            }
        },
    }
}

/// Splits `v` at its first `c`: what comes before, and what comes after if
/// `c` occurs.
fn split_once(v: &Vec<char>, c: char) -> (r: (Vec<char>, Option<Vec<char>>))
    ensures
        r.0@ == before_first(v@, c),
        match after_first(v@, c) {
            Some(t) => r.1 matches Some(a) && a@ == t,
            None => r.1 is None,
        },
{
    match chars_find(v, c) {
        Some(i) => {
            proof {
                lemma_split_first(v@, c, i as int);
            }
            (sub_chars(v, 0, i), Some(sub_chars(v, i + 1, v.len())))
        },
        None => {
            proof {
                lemma_split_first(v@, c, v@.len() as int);
            }
            (sub_chars(v, 0, v.len()), None)
        },
    }
}

/// `strip_prefix` on character vectors.
fn chars_strip_prefix(v: &Vec<char>, p: &str) -> (r: Option<Vec<char>>)
    ensures
        match strip_prefix(v@, p@) {
            Some(t) => r matches Some(a) && a@ == t,
            None => r is None,
        },
{
    let pc = chars_of(p);
    if chars_starts_with(v, &pc) {
        Some(sub_chars(v, pc.len(), v.len()))
    } else {
        None
    }
}

/// `base` followed by the packages directory (see [`with_packages_dir`]).
fn append_packages_dir(base: String, packages_dir: &str) -> (r: String)
    ensures
        r@ == with_packages_dir(base@, packages_dir@),
{
    let d = chars_trim_char(&chars_of(packages_dir), '/');
    if d.len() > 0 {
        let mut b = base;
        b.append("/");
        b.append(string_of(&d).as_str());
        b
    } else {
        base
    }
}

/// The raw-file address of a GitHub mirror (see [`github_raw_base_of`]).
pub fn github_raw_base(repo_url: &str, branch: &str, packages_dir: &str) -> (r: Option<String>)
    ensures
        crate::state::opt_view(r) == github_raw_base_of(repo_url@, branch@, packages_dir@),
{
    let t = trim(repo_url);
    let v = chars_trim_end_char(&chars_of(t.as_str()), '/');
    let v = chars_trim_end_str(&v, &chars_of(".git"));
    let rest = match chars_strip_prefix(&v, "https://github.com/") {
        Some(r) => r,
        None => match chars_strip_prefix(&v, "http://github.com/") {
            Some(r) => r,
            None => {
                return None;
            },
        },
    };
    let (owner, tail) = split_once(&rest, '/');
    let tail = match tail {
        Some(t) => t,
        None => {
            return None;
        },
    };
    let (repo, _) = split_once(&tail, '/');
    if owner.len() == 0 || repo.len() == 0 {
        return None;
    }
    let repo = chars_trim_end_str(&repo, &chars_of(".git"));
    let mut base = owned("https://raw.githubusercontent.com/");
    base.append(string_of(&owner).as_str());
    base.append("/");
    base.append(string_of(&repo).as_str());
    base.append("/");
    base.append(branch);
    let r = append_packages_dir(base, packages_dir);
    assert(r@ == github_raw_base_of(repo_url@, branch@, packages_dir@)->0);
    Some(r)
}

/// Appends `value` unless the list holds it already.
pub fn push_unique(list: &mut Vec<String>, value: String)
    ensures
        views(old(list)@).contains(value@) ==> final(list)@ == old(list)@,
        !views(old(list)@).contains(value@) ==> final(list)@ == old(list)@.push(value),
{
    if contains_str(list, value.as_str()) {
        proof {
            let i = choose|i: int| 0 <= i < list@.len() && #[trigger] list@[i]@ == value@;
            assert(views(list@)[i] == value@);
        }
    } else {
        proof {
            if views(list@).contains(value@) {
                let i = choose|i: int| 0 <= i < views(list@).len() && views(list@)[i] == value@;
                assert(list@[i]@ == value@);
            }
        }
        list.push(value);
    }
}

/// The mirror repository address with the packages directory appended, unless
/// it ends with it already.
pub open spec fn plain_http_base_of(repo: Seq<char>, packages_dir: Seq<char>) -> Seq<char> {
    let base = trim_end_char(repo, '/');
    let d = trim_char(packages_dir, '/');
    if d.len() > 0 && !ends_with(base, "/"@ + d) {
        base + "/"@ + d
    } else {
        base
    }
}

/// The addresses a `.taj` file is looked for under in HTTP mode: the
/// GitHub raw-file address when there is one, then the repository address
/// itself (once).
pub open spec fn http_bases_of(repo: Seq<char>, branch: Seq<char>, packages_dir: Seq<char>) -> Seq<
    Seq<char>,
> {
    let plain = plain_http_base_of(repo, packages_dir);
    match github_raw_base_of(repo, branch, packages_dir) {
        Some(raw) => if raw == plain {
            seq![raw]
        } else {
            seq![raw, plain]
        },
        None => seq![plain],
    }
}

/// The HTTP mirror addresses of a configuration (see [`http_bases_of`]).
pub fn http_mirror_bases(config: &Config) -> (r: Vec<String>)
    ensures
        views(r@) == http_bases_of(
            config.mirror_repo@,
            config.mirror_branch@,
            config.mirror_packages_dir@,
        ),
{
    let mut bases: Vec<String> = Vec::new();
    if let Some(raw) = github_raw_base(
        config.mirror_repo.as_str(),
        config.mirror_branch.as_str(),
        config.mirror_packages_dir.as_str(),
    ) {
        assert(!views(bases@).contains(raw@));
        let ghost rv = raw@;
        push_unique(&mut bases, raw);
        assert(views(bases@) =~= seq![rv]);
    } else {
        assert(views(bases@) =~= Seq::<Seq<char>>::empty());
    }
    assert(views(bases@) == match github_raw_base_of(
        config.mirror_repo@,
        config.mirror_branch@,
        config.mirror_packages_dir@,
    ) {
        Some(x) => seq![x],
        None => Seq::<Seq<char>>::empty(),
    });
    let base_chars = chars_trim_end_char(&chars_of(config.mirror_repo.as_str()), '/');
    let d = chars_trim_char(&chars_of(config.mirror_packages_dir.as_str()), '/');
    let mut base = string_of(&base_chars);
    if d.len() > 0 {
        let ds = string_of(&d);
        let suffix = concat("/", ds.as_str());
        if !str_ends_with(base.as_str(), suffix.as_str()) {
            base.append("/");
            base.append(ds.as_str());
        }
    }
    assert(base@ == plain_http_base_of(config.mirror_repo@, config.mirror_packages_dir@));
    let ghost before = bases@;
    push_unique(&mut bases, base);
    proof {
        let plain = plain_http_base_of(config.mirror_repo@, config.mirror_packages_dir@);
        let want = http_bases_of(
            config.mirror_repo@,
            config.mirror_branch@,
            config.mirror_packages_dir@,
        );
        if views(before).contains(plain) {
            let i = choose|i: int| 0 <= i < views(before).len() && views(before)[i] == plain;
            assert(views(before)[i] == plain);
            assert(views(bases@) =~= want);
        } else {
            assert(views(bases@) =~= views(before).push(plain));
            if views(before).len() == 1 {
                assert(views(before)[0] != plain);
            }
            assert(views(bases@) =~= want);
        }
    }
    bases
}

/// The places a package's `.taj` file is looked for in a mirror checkout, in
/// order: `NAME.taj` and `NAME.Taj` in the packages directory, then the same
/// at the top of the checkout.
pub open spec fn taj_candidates_of(mirror_dir: Seq<char>, packages_dir: Seq<char>, name: Seq<char>) -> Seq<
    Seq<char>,
> {
    let root = path_join(mirror_dir, packages_dir);
    seq![
        path_join(root, name + ".taj"@),
        path_join(root, name + ".Taj"@),
        path_join(mirror_dir, name + ".taj"@),
        path_join(mirror_dir, name + ".Taj"@),
    ]
}

/// The candidate paths of a package's `.taj` file (see [`taj_candidates_of`]).
pub fn taj_file_candidates(mirror_dir: &str, packages_dir: &str, name: &str) -> (r: Vec<String>)
    ensures
        views(r@) == taj_candidates_of(mirror_dir@, packages_dir@, name@),
{
    let root = join(mirror_dir, packages_dir);
    let lower = concat(name, ".taj");
    let upper = concat(name, ".Taj");
    let mut r: Vec<String> = Vec::new();
    r.push(join(root.as_str(), lower.as_str()));
    r.push(join(root.as_str(), upper.as_str()));
    r.push(join(mirror_dir, lower.as_str()));
    r.push(join(mirror_dir, upper.as_str()));
    assert(views(r@) =~= taj_candidates_of(mirror_dir@, packages_dir@, name@));
    r
}

/// The first candidate that exists (`exists[i]` tells whether candidate `i`
/// does); none is an error naming the package.
pub fn find_taj_file(candidates: &Vec<String>, exists: &Vec<bool>, name: &str) -> (r: Result<
    String,
    TajError,
>)
    requires
        exists@.len() == candidates@.len(),
    ensures
        match r {
            Ok(p) => exists|i: int|
                0 <= i < candidates@.len() && exists@[i] && p@ == candidates@[i]@ && forall|j: int|
                    0 <= j < i ==> !#[trigger] exists@[j],
            Err(e) => (forall|j: int| 0 <= j < exists@.len() ==> !#[trigger] exists@[j]) && (e matches TajError::NoTajFile {
                name: n,
            } && n@ == name@),
        },
{
    let mut i: usize = 0;
    while i < candidates.len()
        invariant
            exists@.len() == candidates@.len(),
            i <= candidates.len(),
            forall|j: int| 0 <= j < i ==> !#[trigger] exists@[j],
        decreases candidates.len() - i,
    {
        if exists[i] {
            return Ok(candidates[i].clone());
        }
        i = i + 1;
    }
    Err(TajError::NoTajFile { name: owned(name) })
}

/// The addresses a package's `.taj` file is fetched from in HTTP mode, in
/// order: for each base, `BASE/NAME.taj` then `BASE/NAME.Taj`.
pub open spec fn http_taj_urls_of(bases: Seq<Seq<char>>, name: Seq<char>) -> Seq<Seq<char>>
    decreases bases.len(),
{
    if bases.len() == 0 {
        Seq::empty()
    } else {
        http_taj_urls_of(bases.drop_last(), name).push(
            bases.last() + "/"@ + name + ".taj"@,
        ).push(bases.last() + "/"@ + name + ".Taj"@)
    }
}

/// The addresses to fetch a package's `.taj` file from (see
/// [`http_taj_urls_of`]).
pub fn http_taj_urls(bases: &Vec<String>, name: &str) -> (r: Vec<String>)
    ensures
        views(r@) == http_taj_urls_of(views(bases@), name@),
{
    let mut r: Vec<String> = Vec::new();
    let mut i: usize = 0;
    while i < bases.len()
        invariant
            i <= bases.len(),
            views(r@) == http_taj_urls_of(views(bases@).subrange(0, i as int), name@),
        decreases bases.len() - i,
    {
        let ghost before = r@;
        let stem = concat3(bases[i].as_str(), "/", name);
        r.push(concat(stem.as_str(), ".taj"));
        r.push(concat(stem.as_str(), ".Taj"));
        i = i + 1;
        let ghost cur = views(bases@).subrange(0, i as int);
        assert(cur.drop_last() =~= views(bases@).subrange(0, i - 1));
        assert(views(r@) =~= http_taj_urls_of(cur, name@));
    }
    assert(views(bases@).subrange(0, bases.len() as int) =~= views(bases@));
    r
}

/// The error when no HTTP mirror base has the package.
pub fn no_http_taj_file(config: &Config, name: &str) -> (r: TajError)
    ensures
        r matches TajError::NoHttpTajFile { name: n, bases } && n@ == name@ && views(bases@)
            == http_bases_of(
            config.mirror_repo@,
            config.mirror_branch@,
            config.mirror_packages_dir@,
        ),
{
    TajError::NoHttpTajFile { name: owned(name), bases: http_mirror_bases(config) }
}

} // verus!
