//! The record of installed packages.
use vstd::prelude::*;
use crate::assoc::{assoc_map, has_key, key_index, keys_distinct, lemma_assoc_at,
    lemma_assoc_empty, lemma_assoc_push, lemma_assoc_remove, lemma_assoc_update};
use crate::order::{strictly_sorted, views};
use crate::text::{chars_of, chars_eq, clone_opt, clone_strings, concat3};

verus! {

/// What is known of one installed package.
#[derive(Debug, Clone)]
pub struct InstallRecord {
    pub name: String,
    pub bin_name: String,
    pub bin_path: String,
    pub repo: String,
    pub source: String,
    pub installed_at: i64,
    pub files: Vec<String>,
    pub install_root: Option<String>,
    pub source_name: Option<String>,
    pub is_meta: bool,
}

/// The mathematical value of an [`InstallRecord`].
pub struct InstallRecordView {
    pub name: Seq<char>,
    pub bin_name: Seq<char>,
    pub bin_path: Seq<char>,
    pub repo: Seq<char>,
    pub source: Seq<char>,
    pub installed_at: i64,
    pub files: Seq<Seq<char>>,
    pub install_root: Option<Seq<char>>,
    pub source_name: Option<Seq<char>>,
    pub is_meta: bool,
}

/// Whether `k` is the package that `exclude` names.
pub open spec fn is_excluded(exclude: Option<&str>, k: Seq<char>) -> bool {
    match exclude {
        Some(x) => k == x@,
        None => false,
    }
}

/// How `list` shows one installed package: `NAME -> BIN_PATH`.
pub open spec fn list_line(r: InstallRecordView) -> Seq<char> {
    r.name + " -> "@ + r.bin_path
}

/// The view of an optional string.
pub open spec fn opt_view(o: Option<String>) -> Option<Seq<char>> {
    match o {
        Some(s) => Some(s@),
        None => None,
    }
}

impl View for InstallRecord {
    type V = InstallRecordView;

    open spec fn view(&self) -> InstallRecordView {
        InstallRecordView {
            name: self.name@,
            bin_name: self.bin_name@,
            bin_path: self.bin_path@,
            repo: self.repo@,
            source: self.source@,
            installed_at: self.installed_at,
            files: views(self.files@),
            install_root: opt_view(self.install_root),
            source_name: opt_view(self.source_name),
            is_meta: self.is_meta,
        }
    }
}

impl InstallRecord {
    /// A copy of the record.
    pub fn duplicate(&self) -> (r: InstallRecord)
        ensures
            r@ == self@,
    {
        let files = clone_strings(&self.files);
        InstallRecord {
            name: self.name.clone(),
            bin_name: self.bin_name.clone(),
            bin_path: self.bin_path.clone(),
            repo: self.repo.clone(),
            source: self.source.clone(),
            installed_at: self.installed_at,
            files,
            install_root: clone_opt(&self.install_root),
            source_name: clone_opt(&self.source_name),
            is_meta: self.is_meta,
        }
    }
}

/// The files that a record accounts for: none for a meta package, the binary
/// when no file list was kept, and the file list otherwise.
pub open spec fn record_files(r: InstallRecordView) -> Seq<Seq<char>> {
    if r.is_meta {
        Seq::empty()
    } else if r.files.len() == 0 {
        seq![r.bin_path]
    } else {
        r.files
    }
}

/// The files that `record` accounts for.
pub fn record_file_list(record: &InstallRecord) -> (r: Vec<String>)
    ensures
        views(r@) == record_files(record@),
{
    if record.is_meta {
        let r: Vec<String> = Vec::new();
        assert(views(r@) =~= Seq::<Seq<char>>::empty());
        r
    } else if record.files.len() == 0 {
        let mut r: Vec<String> = Vec::new();
        r.push(record.bin_path.clone());
        assert(views(r@) =~= seq![record.bin_path@]);
        r
    } else {
        clone_strings(&record.files)
    }
}

/// The installed packages, by name.
///
/// Stored as a list of (name, record) pairs with distinct names; its view is
/// the map from names to records.
pub struct State {
    entries: Vec<(String, InstallRecord)>,
}

/// The view of one (name, record) pair.
pub open spec fn entry_view(e: (String, InstallRecord)) -> (Seq<char>, InstallRecordView) {
    (e.0@, e.1@)
}

impl State {
    /// The pairs as mathematical values.
    pub closed spec fn pairs(&self) -> Seq<(Seq<char>, InstallRecordView)> {
        self.entries@.map_values(|e: (String, InstallRecord)| entry_view(e))
    }

    /// No name occurs twice.
    pub closed spec fn wf(&self) -> bool {
        keys_distinct(self.pairs())
    }
}

impl View for State {
    type V = Map<Seq<char>, InstallRecordView>;

    closed spec fn view(&self) -> Map<Seq<char>, InstallRecordView> {
        assoc_map(self.pairs())
    }
}

impl State {
    /// The empty state.
    pub fn new() -> (s: State)
        ensures
            s.wf(),
            s@ == Map::<Seq<char>, InstallRecordView>::empty(),
    {
        let s = State { entries: Vec::new() };
        proof {
            lemma_assoc_empty(s.pairs());
        }
        s
    }

    /// The number of installed packages.
    pub fn len(&self) -> (n: usize)
        requires
            self.wf(),
        ensures
            n == self@.dom().len(),
    {
        proof {
            self.lemma_dom_len();
        }
        self.entries.len()
    }

    /// Whether no package is installed.
    pub fn is_empty(&self) -> (b: bool)
        requires
            self.wf(),
        ensures
            b == (self@.dom().len() == 0),
    {
        self.len() == 0
    }

    proof fn lemma_dom_len(&self)
        requires
            self.wf(),
        ensures
            self@.dom().finite(),
            self@.dom().len() == self.entries@.len(),
        decreases self.entries@.len(),
    {
        let p = self.pairs();
        let keys = p.map_values(|e: (Seq<char>, InstallRecordView)| e.0);
        assert forall|i: int, j: int| 0 <= i < keys.len() && 0 <= j < keys.len() && i != j implies keys[i]
            != keys[j] by {
            assert(p[i].0 != p[j].0);
        }
        assert(keys.no_duplicates());
        assert forall|k: Seq<char>| self@.dom().contains(k) <==> keys.to_set().contains(k) by {
            if self@.dom().contains(k) {
                assert(has_key(p, k));
                let i = choose|i: int| 0 <= i < p.len() && #[trigger] p[i].0 == k;
                assert(keys[i] == k);
            }
            if keys.to_set().contains(k) {
                let i = choose|i: int| 0 <= i < keys.len() && keys[i] == k;
                assert(p[i].0 == k);
            }
        }
        assert(self@.dom() =~= keys.to_set());
        keys.unique_seq_to_set();
    }

    /// The position of `name`, if it is installed.
    fn find(&self, name: &str) -> (r: Option<usize>)
        requires
            self.wf(),
        ensures
            match r {
                Some(i) => i < self.entries@.len() && self.pairs()[i as int].0 == name@,
                None => !has_key(self.pairs(), name@),
            },
    {
        let target = chars_of(name);
        let mut i: usize = 0;
        while i < self.entries.len()
            invariant
                i <= self.entries@.len(),
                target@ == name@,
                forall|j: int| 0 <= j < i ==> #[trigger] self.pairs()[j].0 != name@,
            decreases self.entries.len() - i,
        {
            let key = chars_of(self.entries[i].0.as_str());
            if chars_eq(&key, &target) {
                return Some(i);
            }
            i = i + 1;
        }
        None
    }

    /// Whether `name` is installed.
    pub fn contains_key(&self, name: &str) -> (b: bool)
        requires
            self.wf(),
        ensures
            b == self@.contains_key(name@),
    {
        self.find(name).is_some()
    }

    /// The record of `name`, if it is installed.
    pub fn get(&self, name: &str) -> (r: Option<&InstallRecord>)
        requires
            self.wf(),
        ensures
            r.is_some() == self@.contains_key(name@),
            r matches Some(rec) ==> rec@ == self@[name@],
    {
        match self.find(name) {
            Some(i) => {
                proof {
                    lemma_assoc_at(self.pairs(), i as int);
                }
                Some(&self.entries[i].1)
            },
            None => None,
        }
    }

    /// Records `record` under `name`, replacing what was recorded there.
    pub fn insert(&mut self, name: String, record: InstallRecord)
        requires
            old(self).wf(),
        ensures
            final(self).wf(),
            final(self)@ == old(self)@.insert(name@, record@),
    {
        let ghost old_pairs = self.pairs();
        match self.find(name.as_str()) {
            Some(i) => {
                proof {
                    lemma_assoc_update(old_pairs, i as int, record@);
                }
                let ghost kv = name@;
                self.entries.set(i, (name, record));
                assert(self.pairs() =~= old_pairs.update(i as int, (old_pairs[i as int].0, record@)));
            },
            None => {
                proof {
                    lemma_assoc_push(old_pairs, name@, record@);
                }
                self.entries.push((name, record));
                assert(self.pairs() =~= old_pairs.push((name@, record@)));
            },
        }
    }

    /// Removes `name` and gives back its record, if it was installed.
    pub fn remove(&mut self, name: &str) -> (r: Option<InstallRecord>)
        requires
            old(self).wf(),
        ensures
            final(self).wf(),
            final(self)@ == old(self)@.remove(name@),
            r.is_some() == old(self)@.contains_key(name@),
            r matches Some(rec) ==> rec@ == old(self)@[name@],
    {
        let ghost old_pairs = self.pairs();
        match self.find(name) {
            Some(i) => {
                proof {
                    lemma_assoc_at(old_pairs, i as int);
                    lemma_assoc_remove(old_pairs, i as int);
                }
                let e = self.entries.remove(i);
                assert(self.pairs() =~= old_pairs.remove(i as int));
                Some(e.1)
            },
            None => {
                assert(self@ =~= old(self)@.remove(name@));
                None
            },
        }
    }

    /// The names of the installed packages, in increasing order.
    pub fn sorted_names(&self) -> (r: Vec<String>)
        requires
            self.wf(),
        ensures
            strictly_sorted(views(r@)),
            forall|k: Seq<char>| views(r@).contains(k) <==> self@.contains_key(k),
    {
        let mut names: Vec<String> = Vec::new();
        let mut i: usize = 0;
        while i < self.entries.len()
            invariant
                i <= self.entries@.len(),
                views(names@) == self.pairs().subrange(0, i as int).map_values(
                    |e: (Seq<char>, InstallRecordView)| e.0,
                ),
            decreases self.entries.len() - i,
        {
            let ghost before = names@;
            names.push(self.entries[i].0.clone());
            assert(self.pairs()[i as int].0 == self.entries@[i as int].0@);
            assert(views(names@) =~= views(before).push(self.entries@[i as int].0@));
            i = i + 1;
            assert(views(names@) =~= self.pairs().subrange(0, i as int).map_values(
                |e: (Seq<char>, InstallRecordView)| e.0,
            ));
        }
        assert(self.pairs().subrange(0, self.entries@.len() as int) =~= self.pairs());
        let r = crate::order::sorted_unique(&names);
        assert forall|k: Seq<char>| views(names@).contains(k) <==> self@.contains_key(k) by {
            let p = self.pairs();
            if views(names@).contains(k) {
                let j = choose|j: int| 0 <= j < views(names@).len() && #[trigger] views(names@)[j] == k;
                assert(p[j].0 == k);
            }
            if self@.contains_key(k) {
                let j = key_index(p, k);
                assert(views(names@)[j] == k);
            }
        }
        r
    }

    /// The lines that list the installed packages: `no packages installed`
    /// when there are none, else one [`list_line`] per package, in increasing
    /// order of the names.
    pub fn list_lines(&self) -> (r: Vec<String>)
        requires
            self.wf(),
        ensures
            (forall|k: Seq<char>| !self@.contains_key(k)) ==> views(r@) == seq![
                "no packages installed"@,
            ],
            (exists|k: Seq<char>| self@.contains_key(k)) ==> exists|names: Seq<Seq<char>>|
                #[trigger] strictly_sorted(names) && (forall|k: Seq<char>|
                    names.contains(k) <==> self@.contains_key(k)) && views(r@) == names.map_values(
                    |k: Seq<char>| list_line(self@[k]),
                ),
    {
        let names = self.sorted_names();
        if names.len() == 0 {
            proof {
                assert forall|k: Seq<char>| !self@.contains_key(k) by {
                    if self@.contains_key(k) {
                        assert(views(names@).contains(k));
                    }
                }
            }
            let mut out: Vec<String> = Vec::new();
            out.push(String::from_str("no packages installed"));
            assert(views(out@) =~= seq!["no packages installed"@]);
            return out;
        }
        let ghost nv = views(names@);
        let mut out: Vec<String> = Vec::new();
        let mut i: usize = 0;
        while i < names.len()
            invariant
                self.wf(),
                i <= names.len(),
                nv == views(names@),
                forall|k: Seq<char>| nv.contains(k) <==> self@.contains_key(k),
                views(out@) == nv.subrange(0, i as int).map_values(
                    |k: Seq<char>| list_line(self@[k]),
                ),
            decreases names.len() - i,
        {
            assert(nv[i as int] == names@[i as int]@);
            assert(nv.contains(nv[i as int]));
            let rec = self.get(names[i].as_str());
            let rec = rec.unwrap();
            let line = concat3(rec.name.as_str(), " -> ", rec.bin_path.as_str());
            let ghost before = out@;
            out.push(line);
            i = i + 1;
            assert(views(out@) =~= nv.subrange(0, i as int).map_values(
                |k: Seq<char>| list_line(self@[k]),
            )) by {
                assert(views(out@) =~= views(before).push(line@));
            }
        }
        assert(nv.subrange(0, names.len() as int) =~= nv);
        assert(nv.contains(nv[0]));
        assert(self@.contains_key(nv[0]));
        out
    }

    /// The owner of `path` among the installed packages other than
    /// `exclude`: a package whose file list holds `path`.
    pub fn find_owner(&self, path: &str, exclude: Option<&str>) -> (r: Option<String>)
        requires
            self.wf(),
        ensures
            match r {
                Some(n) => {
                    &&& self@.contains_key(n@)
                    &&& !is_excluded(exclude, n@)
                    &&& record_files(self@[n@]).contains(path@)
                },
                None => forall|k: Seq<char>|
                    #![trigger self@[k]]
                    self@.contains_key(k) && !is_excluded(exclude, k) ==> !record_files(
                        self@[k],
                    ).contains(path@),
            },
    {
        let target = chars_of(path);
        let mut i: usize = 0;
        while i < self.entries.len()
            invariant
                self.wf(),
                i <= self.entries@.len(),
                target@ == path@,
                forall|j: int|
                    0 <= j < i ==> !is_excluded(exclude, #[trigger] self.pairs()[j].0)
                        ==> !record_files(self.pairs()[j].1).contains(path@),
            decreases self.entries.len() - i,
        {
            let name = &self.entries[i].0;
            let skip = match exclude {
                Some(x) => crate::text::str_eq(x, name.as_str()),
                None => false,
            };
            assert(self.pairs()[i as int] == entry_view(self.entries@[i as int]));
            assert(skip == is_excluded(exclude, self.pairs()[i as int].0));
            if !skip {
                let files = record_file_list(&self.entries[i].1);
                let mut j: usize = 0;
                while j < files.len()
                    invariant
                        self.wf(),
                        i < self.entries@.len(),
                        name@ == self.pairs()[i as int].0,
                        views(files@) == record_files(self.pairs()[i as int].1),
                        !is_excluded(exclude, self.pairs()[i as int].0),
                        j <= files.len(),
                        target@ == path@,
                        forall|m: int| 0 <= m < j ==> #[trigger] views(files@)[m] != path@,
                    decreases files.len() - j,
                {
                    let f = chars_of(files[j].as_str());
                    if chars_eq(&f, &target) {
                        proof {
                            lemma_assoc_at(self.pairs(), i as int);
                            assert(views(files@)[j as int] == path@);
                        }
                        return Some(name.clone());
                    }
                    j = j + 1;
                }
                assert(!views(files@).contains(path@));
            }
            i = i + 1;
        }
        proof {
            assert forall|k: Seq<char>|
                #![trigger self@[k]]
                self@.contains_key(k) && !is_excluded(exclude, k) implies !record_files(
                self@[k],
            ).contains(path@) by {
                let j = key_index(self.pairs(), k);
                lemma_assoc_at(self.pairs(), j);
            }
        }
        None
    }

    /// Which package owns each recorded file: every file of every package is
    /// a key, and its value names a package that holds it.
    pub fn build_ownership_index(&self) -> (r: Vec<(String, String)>)
        requires
            self.wf(),
        ensures
            keys_distinct(pair_views(r@)),
            forall|p: Seq<char>|
                #![trigger has_key(pair_views(r@), p)]
                has_key(pair_views(r@), p) <==> exists|k: Seq<char>|
                    #[trigger] self@.contains_key(k) && record_files(self@[k]).contains(p),
            forall|p: Seq<char>|
                #![trigger assoc_map(pair_views(r@))[p]]
                has_key(pair_views(r@), p) ==> {
                    let o = assoc_map(pair_views(r@))[p];
                    self@.contains_key(o) && record_files(self@[o]).contains(p)
                },
    {
        let mut index: Vec<(String, String)> = Vec::new();
        let mut i: usize = 0;
        assert(pair_views(index@) =~= Seq::<(Seq<char>, Seq<char>)>::empty());
        while i < self.entries.len()
            invariant
                self.wf(),
                i <= self.entries@.len(),
                keys_distinct(pair_views(index@)),
                forall|p: Seq<char>|
                    #![trigger has_key(pair_views(index@), p)]
                    has_key(pair_views(index@), p) <==> exists|j: int|
                        0 <= j < i && record_files(#[trigger] self.pairs()[j].1).contains(p),
                forall|q: int|
                    #![trigger index@[q]]
                    0 <= q < index@.len() ==> exists|j: int|
                        0 <= j < i && self.pairs()[j].0 == index@[q].1@ && record_files(
                            #[trigger] self.pairs()[j].1,
                        ).contains(index@[q].0@),
            decreases self.entries.len() - i,
        {
            let files = record_file_list(&self.entries[i].1);
            let mut j: usize = 0;
            while j < files.len()
                invariant
                    self.wf(),
                    i < self.entries@.len(),
                    j <= files.len(),
                    views(files@) == record_files(self.pairs()[i as int].1),
                    keys_distinct(pair_views(index@)),
                    forall|p: Seq<char>|
                        #![trigger has_key(pair_views(index@), p)]
                        has_key(pair_views(index@), p) <==> (
                        exists|j2: int|
                            0 <= j2 < i && record_files(#[trigger] self.pairs()[j2].1).contains(p))
                            || views(files@).subrange(0, j as int).contains(p),
                    forall|q: int|
                        #![trigger index@[q]]
                        0 <= q < index@.len() ==> exists|j2: int|
                            0 <= j2 <= i && self.pairs()[j2].0 == index@[q].1@ && record_files(
                                #[trigger] self.pairs()[j2].1,
                            ).contains(index@[q].0@),
                decreases files.len() - j,
            {
                let ghost before = pair_views(index@);
                let f = &files[j];
                let present = assoc_contains(&index, f.as_str());
                assert(present == has_key(before, f@)) by {
                    if present {
                        let q = choose|q: int| 0 <= q < index@.len() && #[trigger] index@[q].0@ == f@;
                        assert(before[q].0 == f@);
                    }
                    if has_key(before, f@) {
                        let q = choose|q: int| 0 <= q < before.len() && #[trigger] before[q].0 == f@;
                        assert(index@[q].0@ == f@);
                    }
                }
                if !present {
                    let ghost fv = f@;
                    index.push((f.clone(), self.entries[i].0.clone()));
                    proof {
                        lemma_assoc_push(before, fv, self.pairs()[i as int].0);
                        assert(pair_views(index@) =~= before.push(
                            (fv, self.pairs()[i as int].0),
                        ));
                        assert(views(files@)[j as int] == fv);
                    }
                }
                let ghost after = pair_views(index@);
                assert forall|p: Seq<char>| #[trigger] has_key(after, p) <==> (exists|j2: int|
                    0 <= j2 < i && record_files(#[trigger] self.pairs()[j2].1).contains(p))
                    || views(files@).subrange(0, j + 1).contains(p) by {
                    if views(files@).subrange(0, j + 1).contains(p) {
                        let m = choose|m: int| 0 <= m < j + 1 && #[trigger] views(files@).subrange(0, j + 1)[m] == p;
                        if m < j {
                            assert(views(files@).subrange(0, j as int)[m] == p);
                        } else {
                            assert(p == f@);
                            if has_key(before, p) {
                                let q = choose|q: int| 0 <= q < before.len() && #[trigger] before[q].0 == p;
                                assert(after[q].0 == p);
                            } else {
                                assert(after[before.len() as int].0 == p);
                            }
                        }
                    }
                    if views(files@).subrange(0, j as int).contains(p) {
                        let m = choose|m: int| 0 <= m < j && #[trigger] views(files@).subrange(0, j as int)[m] == p;
                        assert(views(files@).subrange(0, j + 1)[m] == p);
                    }
                    if has_key(before, p) {
                        let q = choose|q: int| 0 <= q < before.len() && #[trigger] before[q].0 == p;
                        assert(after[q].0 == p);
                    }
                    if has_key(after, p) {
                        let q = choose|q: int| 0 <= q < after.len() && #[trigger] after[q].0 == p;
                        if q < before.len() {
                            assert(before[q].0 == p);
                        } else {
                            assert(p == f@);
                            assert(views(files@).subrange(0, j + 1)[j as int] == p);
                        }
                    }
                }
                j = j + 1;
            }
            assert(views(files@).subrange(0, files@.len() as int) =~= views(files@));
            assert forall|p: Seq<char>|
                #[trigger] has_key(pair_views(index@), p) <==> exists|j2: int|
                    0 <= j2 < i + 1 && record_files(#[trigger] self.pairs()[j2].1).contains(p) by {
                if exists|j2: int| 0 <= j2 < i + 1 && record_files(#[trigger] self.pairs()[j2].1).contains(p) {
                    let j2 = choose|j2: int| 0 <= j2 < i + 1 && record_files(#[trigger] self.pairs()[j2].1).contains(p);
                    if j2 == i {
                        assert(views(files@).contains(p));
                    }
                }
            }
            i = i + 1;
        }
        proof {
            let idx = pair_views(index@);
            let pr = self.pairs();
            assert forall|p: Seq<char>| #[trigger] has_key(idx, p) <==> exists|k: Seq<char>|
                #[trigger] self@.contains_key(k) && record_files(self@[k]).contains(p) by {
                if has_key(idx, p) {
                    let j = choose|j: int| 0 <= j < pr.len() && record_files(#[trigger] pr[j].1).contains(p);
                    lemma_assoc_at(pr, j);
                    assert(self@.contains_key(pr[j].0));
                }
                if exists|k: Seq<char>| #[trigger] self@.contains_key(k) && record_files(self@[k]).contains(p) {
                    let k = choose|k: Seq<char>| #[trigger] self@.contains_key(k) && record_files(self@[k]).contains(p);
                    let j = key_index(pr, k);
                    lemma_assoc_at(pr, j);
                }
            }
            assert forall|p: Seq<char>| has_key(idx, p) implies {
                let o = #[trigger] assoc_map(idx)[p];
                self@.contains_key(o) && record_files(self@[o]).contains(p)
            } by {
                let q = key_index(idx, p);
                lemma_assoc_at(idx, q);
                assert(index@[q].0@ == p);
                let j = choose|j2: int|
                    0 <= j2 < pr.len() && pr[j2].0 == index@[q].1@ && record_files(
                        #[trigger] pr[j2].1,
                    ).contains(index@[q].0@);
                lemma_assoc_at(pr, j);
            }
        }
        index
    }
}

/// The views of a list of string pairs.
pub open spec fn pair_views(v: Seq<(String, String)>) -> Seq<(Seq<char>, Seq<char>)> {
    v.map_values(|e: (String, String)| (e.0@, e.1@))
}

/// Whether `key` is a key of the association list `v`.
pub fn assoc_contains<V>(v: &Vec<(String, V)>, key: &str) -> (r: bool)
    ensures
        r == exists|i: int| 0 <= i < v@.len() && #[trigger] v@[i].0@ == key@,
{
    let target = chars_of(key);
    let mut i: usize = 0;
    while i < v.len()
        invariant
            i <= v@.len(),
            target@ == key@,
            forall|j: int| 0 <= j < i ==> #[trigger] v@[j].0@ != key@,
        decreases v.len() - i,
    {
        let k = chars_of(v[i].0.as_str());
        if chars_eq(&k, &target) {
            return true;
        }
        i = i + 1;
    }
    false
}

} // verus!
