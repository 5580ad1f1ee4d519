//! Refusing an install whose files belong to another package or are present
//! on disk already.
use vstd::prelude::*;
use crate::assoc::{assoc_map, has_key, key_index, keys_distinct, lemma_assoc_at};
use crate::error::TajError;
use crate::order::views;
use crate::state::{InstallRecordView, State, pair_views, record_files};
use crate::text::{concat, concat3, str_eq};

verus! {

/// `m` maps each file that some package records to a package that records it,
/// and maps nothing else.
pub open spec fn is_ownership_index(
    st: Map<Seq<char>, InstallRecordView>,
    m: Map<Seq<char>, Seq<char>>,
) -> bool {
    &&& forall|p: Seq<char>|
        #![trigger m.contains_key(p)]
        m.contains_key(p) <==> exists|k: Seq<char>|
            #[trigger] st.contains_key(k) && record_files(st[k]).contains(p)
    &&& forall|p: Seq<char>|
        #![trigger m[p]]
        m.contains_key(p) ==> st.contains_key(m[p]) && record_files(st[m[p]]).contains(p)
}

/// The conflict that installing `t` for `owner` makes, with `index` giving
/// the owners of recorded files: a file owned by another package, or an
/// unowned file that exists on disk.
pub open spec fn target_conflict(
    index: Map<Seq<char>, Seq<char>>,
    owner: Seq<char>,
    t: Seq<char>,
    on_disk: bool,
) -> Option<Seq<char>> {
    if index.contains_key(t) {
        if index[t] != owner {
            Some(t + " (owned by "@ + index[t] + ")"@)
        } else {
            None
        }
    } else if on_disk {
        Some(t + " (exists on disk)"@)
    } else {
        None
    }
}

/// The conflicts of the first `n` targets, in their order.
pub open spec fn conflicts_upto(
    index: Map<Seq<char>, Seq<char>>,
    owner: Seq<char>,
    targets: Seq<Seq<char>>,
    on_disk: Seq<bool>,
    n: int,
) -> Seq<Seq<char>>
    decreases n,
{
    if n <= 0 {
        Seq::empty()
    } else {
        let rest = conflicts_upto(index, owner, targets, on_disk, n - 1);
        match target_conflict(index, owner, targets[n - 1], on_disk[n - 1]) {
            Some(c) => rest.push(c),
            None => rest,
        }
    }
}

/// The conflicts of all targets, in their order.
pub open spec fn conflicts_of(
    index: Map<Seq<char>, Seq<char>>,
    owner: Seq<char>,
    targets: Seq<Seq<char>>,
    on_disk: Seq<bool>,
) -> Seq<Seq<char>> {
    conflicts_upto(index, owner, targets, on_disk, targets.len() as int)
}

/// Some package other than `owner` records `t`.
pub open spec fn owned_by_other(
    st: Map<Seq<char>, InstallRecordView>,
    owner: Seq<char>,
    t: Seq<char>,
) -> bool {
    exists|k: Seq<char>| #[trigger] st.contains_key(k) && k != owner && record_files(st[k]).contains(t)
}

/// Some package records `t`.
pub open spec fn owned(st: Map<Seq<char>, InstallRecordView>, t: Seq<char>) -> bool {
    exists|k: Seq<char>| #[trigger] st.contains_key(k) && record_files(st[k]).contains(t)
}

/// Whatever owner the index names, `t` makes a conflict: only other
/// packages record it, or nobody does and it is on disk.
pub open spec fn certain_conflict(
    st: Map<Seq<char>, InstallRecordView>,
    owner: Seq<char>,
    t: Seq<char>,
    on_disk: bool,
) -> bool {
    if owned(st, t) {
        !(st.contains_key(owner) && record_files(st[owner]).contains(t))
    } else {
        on_disk
    }
}

/// Whatever owner the index names, `t` makes no conflict: no other package
/// records it, and it is on disk only if `owner` records it.
pub open spec fn certainly_free(
    st: Map<Seq<char>, InstallRecordView>,
    owner: Seq<char>,
    t: Seq<char>,
    on_disk: bool,
) -> bool {
    !owned_by_other(st, owner, t) && (!owned(st, t) ==> !on_disk)
}

proof fn lemma_conflicts_empty(
    index: Map<Seq<char>, Seq<char>>,
    owner: Seq<char>,
    targets: Seq<Seq<char>>,
    on_disk: Seq<bool>,
    n: int,
)
    requires
        0 <= n,
    ensures
        conflicts_upto(index, owner, targets, on_disk, n).len() == 0 <==> forall|i: int|
            0 <= i < n ==> #[trigger] target_conflict(index, owner, targets[i], on_disk[i]) is None,
    decreases n,
{
    if n > 0 {
        lemma_conflicts_empty(index, owner, targets, on_disk, n - 1);
    }
}

/// The conflicts of `targets` against an ownership index given as an
/// association list (see [`conflicts_of`]).
pub fn file_conflicts(
    index: &Vec<(String, String)>,
    owner: &str,
    targets: &Vec<String>,
    on_disk: &Vec<bool>,
) -> (r: Vec<String>)
    requires
        keys_distinct(pair_views(index@)),
        targets.len() == on_disk.len(),
    ensures
        views(r@) == conflicts_of(assoc_map(pair_views(index@)), owner@, views(targets@), on_disk@),
{
    let ghost m = assoc_map(pair_views(index@));
    let mut out: Vec<String> = Vec::new();
    let mut i: usize = 0;
    while i < targets.len()
        invariant
            i <= targets.len(),
            targets.len() == on_disk.len(),
            keys_distinct(pair_views(index@)),
            m == assoc_map(pair_views(index@)),
            views(out@) == conflicts_upto(m, owner@, views(targets@), on_disk@, i as int),
        decreases targets.len() - i,
    {
        let t = targets[i].as_str();
        let mut j: usize = 0;
        let mut found: Option<usize> = None;
        while j < index.len()
            invariant_except_break
                found is None,
            invariant
                j <= index.len(),
                forall|q: int| 0 <= q < j ==> #[trigger] pair_views(index@)[q].0 != t@,
            ensures
                match found {
                    Some(q) => q < index.len() && pair_views(index@)[q as int].0 == t@,
                    None => forall|q: int|
                        0 <= q < index.len() ==> #[trigger] pair_views(index@)[q].0 != t@,
                },
            decreases index.len() - j,
        {
            if str_eq(index[j].0.as_str(), t) {
                found = Some(j);
                break;
            }
            j = j + 1;
        }
        let ghost tv = views(targets@)[i as int];
        assert(tv == t@);
        let ghost before = out@;
        match found {
            Some(q) => {
                proof {
                    lemma_assoc_at(pair_views(index@), q as int);
                }
                assert(m.contains_key(t@));
                assert(m[t@] == index@[q as int].1@);
                if !str_eq(index[q].1.as_str(), owner) {
                    let head = concat3(t, " (owned by ", index[q].1.as_str());
                    let c = concat(head.as_str(), ")");
                    out.push(c);
                    assert(views(out@) =~= views(before).push(c@));
                }
            },
            None => {
                assert(!m.contains_key(t@)) by {
                    if has_key(pair_views(index@), t@) {
                        let k = key_index(pair_views(index@), t@);
                        assert(pair_views(index@)[k].0 == t@);
                    }
                }
                if on_disk[i] {
                    let c = concat(t, " (exists on disk)");
                    out.push(c);
                    assert(views(out@) =~= views(before).push(c@));
                }
            },
        }
        i = i + 1;
    }
    out
}

/// The outcome of [`check_install_conflicts`]: the conflicts against an
/// ownership index of the state (which owner it names for a file that
/// several packages record is left open); an error listing them when there
/// are any. Whatever the index names, a target that is certainly free makes
/// none and a certain conflict makes one.
pub open spec fn conflict_check_ok(
    r: Result<(), TajError>,
    st: Map<Seq<char>, InstallRecordView>,
    owner: Seq<char>,
    targets: Seq<Seq<char>>,
    on_disk: Seq<bool>,
) -> bool {
    &&& exists|m: Map<Seq<char>, Seq<char>>|
        #[trigger] is_ownership_index(st, m) && {
            let c = conflicts_of(m, owner, targets, on_disk);
            match r {
                Ok(()) => c.len() == 0,
                Err(TajError::FileConflicts { conflicts }) => c.len() > 0 && views(conflicts@) == c,
                Err(_) => false,
            }
        }
    &&& (forall|i: int|
        0 <= i < targets.len() ==> #[trigger] certainly_free(st, owner, targets[i], on_disk[i]))
        ==> r is Ok
    &&& (exists|i: int|
        0 <= i < targets.len() && #[trigger] certain_conflict(st, owner, targets[i], on_disk[i]))
        ==> r is Err
}

/// Refuses an install of `targets` for `owner` when a target is recorded by
/// another package or, recorded by nobody, exists on disk (`on_disk[i]` for
/// `targets[i]`). The owner of a file that several packages record is one of
/// them; whichever it is, the result follows [`conflicts_of`].
pub fn check_install_conflicts(
    state: &State,
    owner: &str,
    targets: &Vec<String>,
    on_disk: &Vec<bool>,
) -> (r: Result<(), TajError>)
    requires
        state.wf(),
        targets.len() == on_disk.len(),
    ensures
        conflict_check_ok(r, state@, owner@, views(targets@), on_disk@),
{
    let index = state.build_ownership_index();
    let conflicts = file_conflicts(&index, owner, targets, on_disk);
    let ghost m = assoc_map(pair_views(index@));
    let ghost tv = views(targets@);
    proof {
        assert forall|p: Seq<char>| #![trigger m.contains_key(p)]
            m.contains_key(p) <==> exists|k: Seq<char>|
                #[trigger] state@.contains_key(k) && record_files(state@[k]).contains(p) by {
            assert(m.contains_key(p) == has_key(pair_views(index@), p));
        }
        assert forall|p: Seq<char>| #![trigger m[p]]
            m.contains_key(p) implies state@.contains_key(m[p]) && record_files(
                state@[m[p]],
            ).contains(p) by {
            assert(has_key(pair_views(index@), p));
            assert(m[p] == assoc_map(pair_views(index@))[p]);
        }
        assert(is_ownership_index(state@, m));
        lemma_conflicts_empty(m, owner@, tv, on_disk@, tv.len() as int);
        if forall|i: int|
            0 <= i < tv.len() ==> #[trigger] certainly_free(state@, owner@, tv[i], on_disk@[i]) {
            assert forall|i: int| 0 <= i < tv.len() implies #[trigger] target_conflict(
                m,
                owner@,
                tv[i],
                on_disk@[i],
            ) is None by {
                assert(certainly_free(state@, owner@, tv[i], on_disk@[i]));
                if m.contains_key(tv[i]) {
                    let o = m[tv[i]];
                    assert(state@.contains_key(o) && record_files(state@[o]).contains(tv[i]));
                    if o != owner@ {
                        assert(owned_by_other(state@, owner@, tv[i]));
                    }
                } else {
                    if on_disk@[i] {
                        assert(owned(state@, tv[i]));
                        let k = choose|k: Seq<char>|
                            #[trigger] state@.contains_key(k) && record_files(state@[k]).contains(
                                tv[i],
                            );
                        assert(m.contains_key(tv[i]));
                    }
                }
            }
        }
        if exists|i: int|
            0 <= i < tv.len() && #[trigger] certain_conflict(state@, owner@, tv[i], on_disk@[i]) {
            let i = choose|i: int|
                0 <= i < tv.len() && #[trigger] certain_conflict(state@, owner@, tv[i], on_disk@[i]);
            if owned(state@, tv[i]) {
                let k = choose|k: Seq<char>|
                    #[trigger] state@.contains_key(k) && record_files(state@[k]).contains(tv[i]);
                assert(m.contains_key(tv[i]));
                let o = m[tv[i]];
                assert(state@.contains_key(o) && record_files(state@[o]).contains(tv[i]));
                assert(o != owner@);
            } else {
                assert(!m.contains_key(tv[i]));
            }
            assert(target_conflict(m, owner@, tv[i], on_disk@[i]) is Some);
        }
    }
    if conflicts.len() == 0 {
        assert(is_ownership_index(state@, m));
        Ok(())
    } else {
        assert(is_ownership_index(state@, m));
        Err(TajError::FileConflicts { conflicts })
    }
}

} // verus!
