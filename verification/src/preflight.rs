//! Checking build dependencies before a build, and the report of what is
//! missing.
use vstd::prelude::*;
use crate::error::TajError;
use crate::order::{strictly_sorted, views};
use crate::tajfile::{TajDeps, TajFile, hint_views};
use crate::text::{join_seq, join_strings, owned};

verus! {

/// The results of probing a package's build dependencies: for each entry of
/// `deps.tools`, whether the tool is on `PATH`; whether `pkg-config` itself
/// is there; and, when it is, for each entry of `deps.pkg_config`, whether
/// `pkg-config --exists` succeeds for it.
#[derive(Debug)]
pub struct DepProbe {
    pub tools_found: Vec<bool>,
    pub pkg_config_found: bool,
    pub libraries_found: Vec<bool>,
}

/// The elements of `names` whose probe came out false, in order.
pub open spec fn missing_of(names: Seq<Seq<char>>, found: Seq<bool>) -> Seq<Seq<char>>
    decreases names.len(),
{
    if names.len() == 0 {
        Seq::empty()
    } else {
        let rest = missing_of(names.drop_last(), found);
        if !found[names.len() - 1] {
            rest.push(names.last())
        } else {
            rest
        }
    }
}

/// The tools reported missing: those not found, then `pkg-config` when
/// libraries are to be checked and it is not there.
pub open spec fn missing_tools_of(deps: TajDeps, probe: DepProbe) -> Seq<Seq<char>> {
    let tools = match deps.tools {
        Some(t) => missing_of(views(t@), probe.tools_found@),
        None => Seq::empty(),
    };
    if deps.pkg_config is Some && !probe.pkg_config_found {
        tools.push("pkg-config"@)
    } else {
        tools
    }
}

/// The libraries reported missing (only checked when `pkg-config` is there).
pub open spec fn missing_libraries_of(deps: TajDeps, probe: DepProbe) -> Seq<Seq<char>> {
    match deps.pkg_config {
        Some(p) => if probe.pkg_config_found {
            missing_of(views(p@), probe.libraries_found@)
        } else {
            Seq::empty()
        },
        None => Seq::empty(),
    }
}

/// The hint lines, one per key in increasing order: `\n- key: values`.
pub open spec fn hint_lines(keys: Seq<Seq<char>>, hints: Map<Seq<char>, Seq<Seq<char>>>) -> Seq<char>
    decreases keys.len(),
{
    if keys.len() == 0 {
        Seq::empty()
    } else {
        hint_lines(keys.drop_last(), hints) + "\n- "@ + keys.last() + ": "@ + join_seq(
            hints[keys.last()],
            " "@,
        )
    }
}

/// The report on missing dependencies, given the keys of the install hints in
/// increasing order.
pub open spec fn report_of(deps: TajDeps, probe: DepProbe, sorted_keys: Seq<Seq<char>>) -> Seq<
    char,
> {
    let tools = missing_tools_of(deps, probe);
    let libs = missing_libraries_of(deps, probe);
    let head = "missing build dependencies"@;
    let with_tools = if tools.len() > 0 {
        head + ": tools ["@ + join_seq(tools, ", "@) + "]"@
    } else {
        head
    };
    let with_libs = if libs.len() > 0 {
        with_tools + (if tools.len() > 0 {
            "; "@
        } else {
            ": "@
        }) + "pkg-config ["@ + join_seq(libs, ", "@) + "]"@
    } else {
        with_tools
    };
    let with_hints = if deps.packages is Some && sorted_keys.len() > 0 {
        with_libs + "\ninstall hints:"@ + hint_lines(
            sorted_keys,
            crate::assoc::assoc_map(hint_views(deps.packages->0@)),
        )
    } else {
        with_libs
    };
    match deps.message {
        Some(m) => with_hints + "\n"@ + m@,
        None => with_hints,
    }
}

/// The probe has a result for each thing it probes.
pub open spec fn probe_fits(deps: TajDeps, probe: DepProbe) -> bool {
    &&& (deps.tools matches Some(t) ==> probe.tools_found@.len() == t@.len())
    &&& (deps.pkg_config matches Some(p) ==> probe.pkg_config_found ==> probe.libraries_found@.len()
        == p@.len())
}

/// The names whose probe is false, in order.
fn collect_missing(names: &Vec<String>, found: &Vec<bool>) -> (r: Vec<String>)
    requires
        found@.len() == names@.len(),
    ensures
        views(r@) == missing_of(views(names@), found@),
{
    let mut r: Vec<String> = Vec::new();
    let mut i: usize = 0;
    while i < names.len()
        invariant
            found@.len() == names@.len(),
            i <= names.len(),
            views(r@) == missing_of(views(names@).subrange(0, i as int), found@),
        decreases names.len() - i,
    {
        let ghost before = r@;
        if !found[i] {
            r.push(names[i].clone());
        }
        i = i + 1;
        let ghost cur = views(names@).subrange(0, i as int);
        assert(cur.drop_last() =~= views(names@).subrange(0, i - 1));
        assert(views(r@) =~= missing_of(cur, found@));
    }
    assert(views(names@).subrange(0, names.len() as int) =~= views(names@));
    r
}

/// The key of each install hint, in the order given.
fn hint_keys(p: &Vec<(String, Vec<String>)>) -> (r: Vec<String>)
    ensures
        views(r@) == hint_views(p@).map_values(|e: (Seq<char>, Seq<Seq<char>>)| e.0),
{
    let mut r: Vec<String> = Vec::new();
    let mut i: usize = 0;
    while i < p.len()
        invariant
            i <= p.len(),
            views(r@) == hint_views(p@).subrange(0, i as int).map_values(
                |e: (Seq<char>, Seq<Seq<char>>)| e.0,
            ),
        decreases p.len() - i,
    {
        let ghost before = r@;
        r.push(p[i].0.clone());
        assert(views(r@) =~= views(before).push(p@[i as int].0@));
        i = i + 1;
        assert(views(r@) =~= hint_views(p@).subrange(0, i as int).map_values(
            |e: (Seq<char>, Seq<Seq<char>>)| e.0,
        ));
    }
    assert(hint_views(p@).subrange(0, p.len() as int) =~= hint_views(p@));
    r
}

/// The values of hint `key`.
fn hint_values<'a>(p: &'a Vec<(String, Vec<String>)>, key: &String) -> (r: &'a Vec<String>)
    requires
        crate::assoc::keys_distinct(hint_views(p@)),
        crate::assoc::has_key(hint_views(p@), key@),
    ensures
        views(r@) == crate::assoc::assoc_map(hint_views(p@))[key@],
{
    let target = crate::text::chars_of(key.as_str());
    let mut i: usize = 0;
    while i < p.len()
        invariant
            i <= p.len(),
            target@ == key@,
            crate::assoc::keys_distinct(hint_views(p@)),
            crate::assoc::has_key(hint_views(p@), key@),
            forall|j: int| 0 <= j < i ==> #[trigger] hint_views(p@)[j].0 != key@,
        decreases p.len() - i,
    {
        let k = crate::text::chars_of(p[i].0.as_str());
        if crate::text::chars_eq(&k, &target) {
            proof {
                crate::assoc::lemma_assoc_at(hint_views(p@), i as int);
            }
            return &p[i].1;
        }
        i = i + 1;
    }
    proof {
        let j = crate::assoc::key_index(hint_views(p@), key@);
        assert(hint_views(p@)[j].0 == key@);
    }
    &p[0].1
}

/// Checks that a package's build dependencies are present. When something
/// is missing, the error carries the report: the missing tools, the missing
/// pkg-config libraries, the install hints by key in increasing order, and
/// the package's own note.
pub fn preflight_deps(taj: &TajFile, probe: &DepProbe) -> (r: Result<(), TajError>)
    requires
        taj.deps matches Some(d) ==> d.wf() && probe_fits(d, *probe),
    ensures
        taj.deps is None ==> r is Ok,
        taj.deps matches Some(d) ==> {
            &&& (missing_tools_of(d, *probe).len() == 0 && missing_libraries_of(d, *probe).len()
                == 0) ==> r is Ok
            &&& (missing_tools_of(d, *probe).len() > 0 || missing_libraries_of(d, *probe).len()
                > 0) ==> (r matches Err(TajError::MissingBuildDependencies { report }) && exists|
                keys: Seq<Seq<char>>|
                {
                    &&& strictly_sorted(keys)
                    &&& (d.packages matches Some(p) ==> forall|k: Seq<char>|
                        keys.contains(k) <==> crate::assoc::has_key(hint_views(p@), k))
                    &&& report@ == report_of(d, *probe, keys)
                })
        },
{
    let deps = match &taj.deps {
        Some(d) => d,
        None => {
            return Ok(());
        },
    };
    let mut missing_tools: Vec<String> = match &deps.tools {
        Some(t) => collect_missing(t, &probe.tools_found),
        None => {
            let v: Vec<String> = Vec::new();
            assert(views(v@) =~= Seq::<Seq<char>>::empty());
            v
        },
    };
    let mut missing_libs: Vec<String> = Vec::new();
    assert(views(missing_libs@) =~= Seq::<Seq<char>>::empty());
    if let Some(libs) = &deps.pkg_config {
        if !probe.pkg_config_found {
            let ghost before = missing_tools@;
            missing_tools.push(owned("pkg-config"));
            assert(views(missing_tools@) =~= views(before).push("pkg-config"@));
        } else {
            missing_libs = collect_missing(libs, &probe.libraries_found);
        }
    }
    assert(views(missing_tools@) == missing_tools_of(*deps, *probe));
    assert(views(missing_libs@) == missing_libraries_of(*deps, *probe));
    if missing_tools.len() == 0 && missing_libs.len() == 0 {
        return Ok(());
    }
    let mut message = owned("missing build dependencies");
    if missing_tools.len() > 0 {
        message.append(": tools [");
        message.append(join_strings(&missing_tools, ", ").as_str());
        message.append("]");
    }
    if missing_libs.len() > 0 {
        if missing_tools.len() > 0 {
            message.append("; ");
        } else {
            message.append(": ");
        }
        message.append("pkg-config [");
        message.append(join_strings(&missing_libs, ", ").as_str());
        message.append("]");
    }
    let ghost mut sorted: Seq<Seq<char>> = Seq::empty();
    if let Some(hints) = &deps.packages {
        let keys = crate::order::sorted_unique(&hint_keys(hints));
        proof {
            sorted = views(keys@);
            assert forall|k: Seq<char>|
                sorted.contains(k) <==> crate::assoc::has_key(hint_views(hints@), k) by {
                let hk = hint_views(hints@).map_values(|e: (Seq<char>, Seq<Seq<char>>)| e.0);
                if hk.contains(k) {
                    let j = choose|j: int| 0 <= j < hk.len() && hk[j] == k;
                    assert(hint_views(hints@)[j].0 == k);
                }
                if crate::assoc::has_key(hint_views(hints@), k) {
                    let j = choose|j: int|
                        0 <= j < hint_views(hints@).len() && #[trigger] hint_views(hints@)[j].0 == k;
                    assert(hk[j] == k);
                }
            }
        }
        if keys.len() > 0 {
            let ghost head = message@;
            message.append("\ninstall hints:");
            let ghost base = message@;
            let mut i: usize = 0;
            while i < keys.len()
                invariant
                    i <= keys.len(),
                    sorted == views(keys@),
                    deps.wf(),
                    deps.packages == Some(*hints),
                    forall|k: Seq<char>|
                        sorted.contains(k) <==> crate::assoc::has_key(hint_views(hints@), k),
                    message@ == base + hint_lines(
                        sorted.subrange(0, i as int),
                        crate::assoc::assoc_map(hint_views(hints@)),
                    ),
                decreases keys.len() - i,
            {
                assert(sorted[i as int] == keys@[i as int]@);
                assert(sorted.contains(keys@[i as int]@));
                let values = hint_values(hints, &keys[i]);
                message.append("\n- ");
                message.append(keys[i].as_str());
                message.append(": ");
                message.append(join_strings(values, " ").as_str());
                i = i + 1;
                let ghost cur = sorted.subrange(0, i as int);
                assert(cur.drop_last() =~= sorted.subrange(0, i - 1));
                assert(message@ =~= base + hint_lines(
                    cur,
                    crate::assoc::assoc_map(hint_views(hints@)),
                ));
            }
            assert(sorted.subrange(0, keys.len() as int) =~= sorted);
        }
    }
    if let Some(note) = &deps.message {
        message.append("\n");
        message.append(note.as_str());
    }
    assert(message@ =~= report_of(*deps, *probe, sorted));
    assert(strictly_sorted(sorted));
    assert(deps.packages matches Some(p) ==> forall|k: Seq<char>|
        sorted.contains(k) <==> crate::assoc::has_key(hint_views(p@), k));
    Err(TajError::MissingBuildDependencies { report: message })
}

} // verus!
