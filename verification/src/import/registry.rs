//! An index of the game's asset files by model name (file stem), with
//! rules for which of several same-named files is kept under the name.
use crate::assoc::{assoc_get, assoc_insert, assoc_map, assoc_position, has_key, keys_unique};
use crate::import::{file_stem_of_path, lower_chars, path_file_stem, FileType};
use crate::text::{chars_of, dec_nat, lemma_dec_nat_injective, push_dec, push_str_chars, string_from_chars, to_ascii_lowercase};
use vstd::prelude::*;
use vstd::set_lib::{lemma_int_range, lemma_len_subset, lemma_map_size, set_int_range};

verus! {

/// Name for whether `std::path::Path` holds the paths written `a` and `b`
/// equal (component by component).
pub uninterp spec fn same_path(a: Seq<char>, b: Seq<char>) -> bool;

/// Name for the text of `path` below `root`, as `Path::strip_prefix` gives
/// it; nothing when `root` is not a prefix of `path`.
pub uninterp spec fn path_relative(path: Seq<char>, root: Seq<char>) -> Option<Seq<char>>;

/// Name for the number of components `Path::components` finds in `path`.
pub uninterp spec fn path_component_count(path: Seq<char>) -> nat;

/// Whether two paths are equal through `Path`'s `==`, which compares
/// components. Claimed of it: the outcome is a function of the two texts
/// (the name above).
#[verifier::external_body]
fn paths_equal(a: &str, b: &str) -> (r: bool)
    ensures
        r == same_path(a@, b@),
{
    std::path::Path::new(a) == std::path::Path::new(b)
}

/// The part of `path` below `root` through `Path::strip_prefix`. Claimed of
/// it: the outcome is a function of the two texts (the name above).
#[verifier::external_body]
fn relative_path(path: &str, root: &str) -> (r: Option<String>)
    ensures
        match r {
            Some(s) => path_relative(path@, root@) == Some(s@),
            None => path_relative(path@, root@) is None,
        },
{
    std::path::Path::new(path).strip_prefix(root).ok().map(|p| p.to_string_lossy().into_owned())
}

/// The number of components of `path` through `Path::components`. Claimed
/// of it: the count is a function of the text (the name above).
#[verifier::external_body]
fn component_count(path: &str) -> (r: usize)
    ensures
        r == path_component_count(path@),
{
    std::path::Path::new(path).components().count()
}

/// A file known to the registry: its model name, path and type.
#[derive(Debug, Clone)]
pub struct FileEntry {
    pub name: String,
    pub path: String,
    pub file_type: FileType,
}

/// An entry as values: name, path, type.
pub open spec fn entry_view(e: FileEntry) -> (Seq<char>, Seq<char>, FileType) {
    (e.name@, e.path@, e.file_type)
}

impl FileEntry {
    /// An entry for a discovered file.
    pub fn new(name: String, path: String, file_type: FileType) -> (r: Self)
        ensures
            entry_view(r) == (name@, path@, file_type),
    {
        FileEntry { name, path, file_type }
    }
}

/// `a` comes before `b` in code-point order (which is also the byte order
/// of their UTF-8 encodings).
pub open spec fn text_lt(a: Seq<char>, b: Seq<char>) -> bool
    decreases a.len(),
{
    if a.len() == 0 {
        b.len() > 0
    } else if b.len() == 0 {
        false
    } else if a[0] != b[0] {
        (a[0] as int) < (b[0] as int)
    } else {
        text_lt(a.drop_first(), b.drop_first())
    }
}

/// `pat` occurs in `s`.
pub open spec fn contains_text(s: Seq<char>, pat: Seq<char>) -> bool {
    exists|i: int| 0 <= i && i + pat.len() <= s.len() && #[trigger] s.subrange(i, i + pat.len()) == pat
}

/// The priority of a path among same-named files: its source directory
/// (`fxart` before `maps` before `3dart` before the rest), its depth below
/// the root, and its lower-cased text below the root.
pub open spec fn rank_of(root: Seq<char>, path: Seq<char>) -> (int, int, Seq<char>) {
    let rel = match path_relative(path, root) {
        Some(r) => r,
        None => path,
    };
    let norm = lower_chars(rel);
    let source: int = if contains_text(norm, "fxart/"@) || contains_text(norm, "fxart\\"@) {
        0
    } else if contains_text(norm, "maps/"@) || contains_text(norm, "maps\\"@) {
        1
    } else if contains_text(norm, "3dart/"@) || contains_text(norm, "3dart\\"@) {
        2
    } else {
        3
    };
    (source, path_component_count(rel) as int, norm)
}

/// Lexicographic order of priorities.
pub open spec fn rank_lt(a: (int, int, Seq<char>), b: (int, int, Seq<char>)) -> bool {
    a.0 < b.0 || (a.0 == b.0 && (a.1 < b.1 || (a.1 == b.1 && text_lt(a.2, b.2))))
}

/// The model name of a path: its file stem, or empty.
pub open spec fn stem_key(path: Seq<char>) -> Seq<char> {
    match path_file_stem(path) {
        Some(s) => s,
        None => Seq::empty(),
    }
}

/// Key `<name>#<k>` under which another file with model name `name` is kept.
pub open spec fn dup_key(name: Seq<char>, k: nat) -> Seq<char> {
    name + seq!['#'] + dec_nat(k)
}

/// The first `k` from 1 whose key `<name>#<k>` is free in `m`.
pub open spec fn free_suffix(m: Map<Seq<char>, (Seq<char>, Seq<char>, FileType)>, name: Seq<char>) -> nat {
    choose|k: nat|
        k >= 1 && !m.contains_key(dup_key(name, k)) && forall|j: nat|
            1 <= j < k ==> #[trigger] m.contains_key(dup_key(name, j))
}

/// The index after adding the file at `path`. A new name is added; a file
/// at another path whose type differs from the kept one, or that is a
/// model archive, is kept as well under the first free `<name>#<k>`;
/// otherwise the file with the better priority is kept under the name.
pub open spec fn registry_add(
    m: Map<Seq<char>, (Seq<char>, Seq<char>, FileType)>,
    root: Seq<char>,
    path: Seq<char>,
    ft: FileType,
) -> Map<Seq<char>, (Seq<char>, Seq<char>, FileType)> {
    let name = stem_key(path);
    let e = (name, path, ft);
    if !m.contains_key(name) {
        m.insert(name, e)
    } else if !same_path(m[name].1, path) && (m[name].2 != ft || m[name].2 == FileType::Rob) {
        m.insert(dup_key(name, free_suffix(m, name)), e)
    } else if rank_lt(rank_of(root, path), rank_of(root, m[name].1)) {
        m.insert(name, e)
    } else {
        m
    }
}

/// Files by model name.
#[derive(Debug, Clone)]
pub struct Registry {
    pub root_path: String,
    pub files: Vec<(String, FileEntry)>,
}

/// No text comes before itself.
pub proof fn lemma_text_lt_irreflexive(a: Seq<char>)
    ensures
        !text_lt(a, a),
    decreases a.len(),
{
    if a.len() > 0 {
        lemma_text_lt_irreflexive(a.drop_first());
    }
}

/// The order of texts is transitive.
pub proof fn lemma_text_lt_transitive(a: Seq<char>, b: Seq<char>, c: Seq<char>)
    requires
        text_lt(a, b),
        text_lt(b, c),
    ensures
        text_lt(a, c),
    decreases a.len(),
{
    if a.len() > 0 && b.len() > 0 && c.len() > 0 && a[0] == b[0] && b[0] == c[0] {
        lemma_text_lt_transitive(a.drop_first(), b.drop_first(), c.drop_first());
    }
}

/// Of two different texts, one comes before the other.
pub proof fn lemma_text_lt_total(a: Seq<char>, b: Seq<char>)
    requires
        a != b,
    ensures
        text_lt(a, b) || text_lt(b, a),
    decreases a.len(),
{
    if a.len() > 0 && b.len() > 0 && a[0] == b[0] {
        if a.drop_first() == b.drop_first() {
            assert(a =~= seq![a[0]] + a.drop_first());
            assert(b =~= seq![b[0]] + b.drop_first());
        }
        lemma_text_lt_total(a.drop_first(), b.drop_first());
    } else if a.len() == 0 && b.len() == 0 {
        assert(a =~= b);
    } else if a.len() > 0 && b.len() > 0 {
        assert((a[0] as int) != (b[0] as int));
    }
}

/// Each text comes before the next.
pub open spec fn strictly_sorted(v: Seq<String>) -> bool {
    forall|i: int, j: int| 0 <= i < j < v.len() ==> text_lt(#[trigger] v[i]@, #[trigger] v[j]@)
}

/// Some text of `v` is `x`.
pub open spec fn has_text(v: Seq<String>, x: Seq<char>) -> bool {
    exists|i: int| 0 <= i < v.len() && #[trigger] v[i]@ == x
}

/// Adds `s` to a sorted list of texts unless it is there already.
pub(crate) fn insert_sorted_unique(v: &mut Vec<String>, s: String)
    requires
        strictly_sorted(old(v)@),
    ensures
        strictly_sorted(final(v)@),
        forall|x: Seq<char>| has_text(final(v)@, x) <==> (has_text(old(v)@, x) || x == s@),
{
    let sc = chars_of(s.as_str());
    let mut i: usize = 0;
    while i < v.len()
        invariant
            i <= v@.len(),
            sc@ == s@,
            forall|k: int| 0 <= k < i ==> text_lt(#[trigger] v@[k]@, s@),
        ensures
            i <= v@.len(),
            forall|k: int| 0 <= k < i ==> text_lt(#[trigger] v@[k]@, s@),
            i < v@.len() ==> !text_lt(v@[i as int]@, s@),
        decreases v@.len() - i,
    {
        let vc = chars_of(v[i].as_str());
        if !text_less(vc.as_slice(), sc.as_slice()) {
            break;
        }
        i += 1;
    }
    let ghost before = v@;
    assert(before == old(v)@);
    if i < v.len() {
        let vc = chars_of(v[i].as_str());
        if !text_less(sc.as_slice(), vc.as_slice()) {
            proof {
                if v@[i as int]@ != s@ {
                    lemma_text_lt_total(v@[i as int]@, s@);
                }
                assert forall|x: Seq<char>| has_text(v@, x) <==> (has_text(v@, x) || x == s@) by {
                    if x == s@ {
                        assert(v@[i as int]@ == x);
                    }
                }
            }
            return;
        }
    }
    proof {
        assert forall|k: int| i <= k < v@.len() implies text_lt(s@, #[trigger] v@[k]@) by {
            if k > i {
                lemma_text_lt_transitive(s@, v@[i as int]@, v@[k]@);
            }
        }
    }
    let ghost sv = s@;
    v.insert(i, s);
    proof {
        assert(v@ == before.insert(i as int, v@[i as int]));
        assert(v@[i as int]@ == sv);
        assert forall|a: int, b: int| 0 <= a < b < v@.len() implies text_lt(#[trigger] v@[a]@, #[trigger] v@[b]@) by {
            if a < i && b > i {
                assert(v@[a] == before[a]);
                assert(v@[b] == before[b - 1]);
            } else if a < i && b == i {
            } else if a == i {
                assert(v@[b] == before[b - 1]);
            } else if b < i {
                assert(v@[a] == before[a] && v@[b] == before[b]);
            } else {
                assert(v@[a] == before[a - 1] && v@[b] == before[b - 1]);
            }
        }
        assert forall|x: Seq<char>| has_text(v@, x) <==> (has_text(before, x) || x == sv) by {
            if has_text(before, x) {
                let k = choose|k: int| 0 <= k < before.len() && #[trigger] before[k]@ == x;
                if k < i {
                    assert(v@[k]@ == x);
                } else {
                    assert(v@[k + 1]@ == x);
                }
                assert(has_text(v@, x));
            }
            if x == sv {
                assert(v@[i as int]@ == x);
                assert(has_text(v@, x));
            }
            if has_text(v@, x) {
                let k = choose|k: int| 0 <= k < v@.len() && #[trigger] v@[k]@ == x;
                if k < i {
                    assert(before[k]@ == x);
                    assert(has_text(before, x));
                } else if k > i {
                    assert(before[k - 1]@ == x);
                    assert(has_text(before, x));
                } else {
                    assert(x == sv);
                }
            }
        }
    }
}

/// Whether `a` comes before `b` in code-point order.
pub(crate) fn text_less(a: &[char], b: &[char]) -> (r: bool)
    ensures
        r == text_lt(a@, b@),
{
    let mut i: usize = 0;
    assert(a@.skip(0) =~= a@ && b@.skip(0) =~= b@);
    while i < a.len() && i < b.len()
        invariant
            i <= a@.len(),
            i <= b@.len(),
            text_lt(a@, b@) == text_lt(a@.skip(i as int), b@.skip(i as int)),
        decreases a@.len() - i,
    {
        if a[i] != b[i] {
            assert(a@.skip(i as int)[0] == a@[i as int]);
            assert(b@.skip(i as int)[0] == b@[i as int]);
            return a[i] < b[i];
        }
        assert(a@.skip(i as int).drop_first() =~= a@.skip(i + 1));
        assert(b@.skip(i as int).drop_first() =~= b@.skip(i + 1));
        i += 1;
    }
    i < b.len()
}

/// Whether `pat` occurs in `s` at offset `i`.
pub(crate) fn matches_at(s: &[char], i: usize, pat: &[char]) -> (r: bool)
    requires
        i + pat@.len() <= s@.len(),
    ensures
        r == (s@.subrange(i as int, i + pat@.len()) == pat@),
{
    let n: usize = s.len();
    let mut k: usize = 0;
    while k < pat.len()
        invariant
            n == s@.len(),
            i + pat@.len() <= s@.len(),
            k <= pat@.len(),
            s@.subrange(i as int, i + k) == pat@.subrange(0, k as int),
        decreases pat@.len() - k,
    {
        if s[i + k] != pat[k] {
            assert(s@.subrange(i as int, i + pat@.len())[k as int] != pat@[k as int]);
            return false;
        }
        assert(s@.subrange(i as int, i + k + 1) =~= s@.subrange(i as int, i + k).push(s@[i + k]));
        assert(pat@.subrange(0, k + 1) =~= pat@.subrange(0, k as int).push(pat@[k as int]));
        k += 1;
    }
    assert(pat@.subrange(0, k as int) =~= pat@);
    true
}

/// Whether `pat` occurs in `s`.
fn contains_chars(s: &[char], pat: &[char]) -> (r: bool)
    ensures
        r == contains_text(s@, pat@),
{
    let n: usize = s.len();
    let m: usize = pat.len();
    if m > n {
        return false;
    }
    let last: usize = n - m;
    let mut i: usize = 0;
    loop
        invariant
            n == s@.len(),
            m == pat@.len(),
            last == n - m,
            i <= last,
            forall|j: int| 0 <= j < i ==> #[trigger] s@.subrange(j, j + m) != pat@,
        decreases last - i,
    {
        if matches_at(s, i, pat) {
            return true;
        }
        if i == last {
            return false;
        }
        i += 1;
    }
}

/// Lexicographic comparison of two priorities.
pub(crate) fn rank_less(a: &(usize, usize, String), b: &(usize, usize, String)) -> (r: bool)
    ensures
        r == rank_lt((a.0 as int, a.1 as int, a.2@), (b.0 as int, b.1 as int, b.2@)),
{
    if a.0 != b.0 {
        a.0 < b.0
    } else if a.1 != b.1 {
        a.1 < b.1
    } else {
        let x = chars_of(a.2.as_str());
        let y = chars_of(b.2.as_str());
        text_less(x.as_slice(), y.as_slice())
    }
}

/// The index as a map from keys to entries.
pub open spec fn entries_of(v: Seq<(String, FileEntry)>) -> Map<Seq<char>, (Seq<char>, Seq<char>, FileType)> {
    assoc_map(v).map_values(|e: FileEntry| entry_view(e))
}

impl Registry {
    /// No key is held twice.
    pub open spec fn wf(&self) -> bool {
        keys_unique(self.files@)
    }

    /// The files by key: each key to the entry's name, path and type.
    pub open spec fn entries(&self) -> Map<Seq<char>, (Seq<char>, Seq<char>, FileType)> {
        entries_of(self.files@)
    }

    /// An empty registry rooted at `root_path`.
    pub fn new(root_path: String) -> (r: Self)
        ensures
            r.wf(),
            r.root_path@ == root_path@,
            r.entries() == Map::<Seq<char>, (Seq<char>, Seq<char>, FileType)>::empty(),
    {
        let r = Registry { root_path, files: Vec::new() };
        assert(r.entries() =~= Map::<Seq<char>, (Seq<char>, Seq<char>, FileType)>::empty());
        r
    }

    /// The priority of `path` among same-named files: its source
    /// directory, its depth below the root and its lower-cased text below
    /// the root.
    pub fn source_rank_key(&self, path: &str) -> (r: (usize, usize, String))
        ensures
            (r.0 as int, r.1 as int, r.2@) == rank_of(self.root_path@, path@),
    {
        let rel: String = match relative_path(path, self.root_path.as_str()) {
            Some(r) => r,
            None => path.to_owned(),
        };
        let depth = component_count(rel.as_str());
        let normalized = to_ascii_lowercase(rel.as_str());
        let norm = chars_of(normalized.as_str());
        let fx_slash = chars_of("fxart/");
        let fx_back = chars_of("fxart\\");
        let maps_slash = chars_of("maps/");
        let maps_back = chars_of("maps\\");
        let art_slash = chars_of("3dart/");
        let art_back = chars_of("3dart\\");
        let source_rank: usize = if contains_chars(norm.as_slice(), fx_slash.as_slice()) || contains_chars(
            norm.as_slice(),
            fx_back.as_slice(),
        ) {
            0
        } else if contains_chars(norm.as_slice(), maps_slash.as_slice()) || contains_chars(
            norm.as_slice(),
            maps_back.as_slice(),
        ) {
            1
        } else if contains_chars(norm.as_slice(), art_slash.as_slice()) || contains_chars(
            norm.as_slice(),
            art_back.as_slice(),
        ) {
            2
        } else {
            3
        };
        assert(normalized@ =~= lower_chars(rel@));
        (source_rank, depth, normalized)
    }

    /// Adds the file at `path` of type `file_type` under its model name (the
    /// file stem), by the rules of `registry_add`.
    pub fn add_file(&mut self, path: &str, file_type: FileType)
        requires
            old(self).wf(),
        ensures
            final(self).wf(),
            final(self).root_path == old(self).root_path,
            final(self).entries() == registry_add(old(self).entries(), old(self).root_path@, path@, file_type),
    {
        let ghost m = self.entries();
        let ghost root = self.root_path@;
        let name: String = match file_stem_of_path(path) {
            Some(s) => s,
            None => String::new(),
        };
        assert(stem_key(path@) == name@);
        let entry = FileEntry::new(name.clone(), path.to_owned(), file_type);
        let ghost e = entry_view(entry);
        let found: Option<(String, FileType)> = match assoc_get(&self.files, &name) {
            Some(existing) => Some((existing.path.clone(), existing.file_type)),
            None => None,
        };
        match found {
            None => {
                let ghost before = self.files@;
                assoc_insert(&mut self.files, name, entry);
                assert(self.entries() =~= m.insert(stem_key(path@), e));
            },
            Some((existing_path, existing_type)) => {
                assert(m.contains_key(name@) && m[name@].1 == existing_path@ && m[name@].2 == existing_type);
                let same = paths_equal(existing_path.as_str(), path);
                if !same && (existing_type != file_type || existing_type == FileType::Rob) {
                    let mut suffix: usize = 1;
                    let total: usize = self.files.len();
                    assert(has_key(self.files@, name@));
                    assert(self.files@.len() >= 1);
                    loop
                        invariant
                            keys_unique(self.files@),
                            m == old(self).entries(),
                            total == self.files@.len(),
                            root == old(self).root_path@,
                            self.root_path == old(self).root_path,
                            self.entries() == m,
                            self.root_path@ == root,
                            m.contains_key(name@),
                            has_key(self.files@, name@),
                            name@ == stem_key(path@),
                            e == entry_view(entry),
                            e == (stem_key(path@), path@, file_type),
                            1 <= suffix <= self.files@.len(),
                            forall|j: nat| 1 <= j < suffix ==> #[trigger] has_key(self.files@, dup_key(name@, j)),
                            !same_path(m[name@].1, path@) && (m[name@].2 != file_type || m[name@].2 == FileType::Rob),
                        decreases self.files@.len() - suffix,
                    {
                        let mut key_chars = chars_of(name.as_str());
                        key_chars.push('#');
                        push_dec(&mut key_chars, suffix as u64);
                        let candidate = string_from_chars(key_chars.as_slice());
                        assert(candidate@ =~= dup_key(name@, suffix as nat));
                        if assoc_position(&self.files, &candidate).is_none() {
                            proof {
                                let k = suffix as nat;
                                assert(forall|j: nat| 1 <= j < k ==> #[trigger] m.contains_key(dup_key(name@, j)) ==
                                    has_key(self.files@, dup_key(name@, j)));
                                assert(!m.contains_key(dup_key(name@, k)));
                                let f = free_suffix(m, name@);
                                assert(k >= 1 && !m.contains_key(dup_key(name@, k)) && forall|j: nat|
                                    1 <= j < k ==> #[trigger] m.contains_key(dup_key(name@, j)));
                                if f < k {
                                    assert(m.contains_key(dup_key(name@, f)));
                                }
                                if k < f {
                                    assert(m.contains_key(dup_key(name@, k)));
                                }
                                assert(f == k);
                            }
                            assoc_insert(&mut self.files, candidate, entry);
                            assert(self.entries() =~= m.insert(dup_key(name@, free_suffix(m, name@)), e));
                            return;
                        }
                        proof {
                            assert forall|j: nat| 1 <= j <= suffix implies #[trigger] has_key(
                                self.files@,
                                dup_key(name@, j),
                            ) by {
                                if j == suffix {
                                    assert(dup_key(name@, j) == candidate@);
                                }
                            }
                            lemma_dup_keys_bound(self.files@, name@, suffix as nat);
                        }
                        suffix += 1;
                    }
                }
                let existing_rank = self.source_rank_key(existing_path.as_str());
                let new_rank = self.source_rank_key(path);
                if rank_less(&new_rank, &existing_rank) {
                    assoc_insert(&mut self.files, name, entry);
                    assert(self.entries() =~= m.insert(stem_key(path@), e));
                } else {
                    assert(self.entries() =~= m);
                }
            },
        }
    }

    /// The entry kept under model name `name`.
    pub fn get_file_by_name(&self, name: &str) -> (r: Option<&FileEntry>)
        requires
            self.wf(),
        ensures
            r is Some <==> self.entries().contains_key(name@),
            r matches Some(e) ==> entry_view(*e) == self.entries()[name@],
    {
        let key = name.to_owned();
        assoc_get(&self.files, &key)
    }

    /// The entry kept under the model name of `path` (its file stem).
    pub fn get_file_by_path(&self, path: &str) -> (r: Option<&FileEntry>)
        requires
            self.wf(),
        ensures
            r is Some <==> self.entries().contains_key(stem_key(path@)),
            r matches Some(e) ==> entry_view(*e) == self.entries()[stem_key(path@)],
    {
        let name: String = match file_stem_of_path(path) {
            Some(s) => s,
            None => String::new(),
        };
        assoc_get(&self.files, &name)
    }

    /// All keys of the registry.
    pub fn get_all_names(&self) -> (r: Vec<&String>)
        requires
            self.wf(),
        ensures
            r@.len() == self.files@.len(),
            forall|i: int| 0 <= i < r@.len() ==> #[trigger] r@[i]@ == self.files@[i].0@,
            forall|k: Seq<char>| self.entries().contains_key(k) <==> exists|i: int| 0 <= i < r@.len() && #[trigger] r@[i]@ == k,
    {
        let mut out: Vec<&String> = Vec::new();
        let mut i: usize = 0;
        while i < self.files.len()
            invariant
                i <= self.files@.len(),
                out@.len() == i,
                forall|j: int| 0 <= j < i ==> #[trigger] out@[j]@ == self.files@[j].0@,
            decreases self.files@.len() - i,
        {
            out.push(&self.files[i].0);
            i += 1;
        }
        assert forall|k: Seq<char>| self.entries().contains_key(k) <==> exists|i: int| 0 <= i < out@.len() && #[trigger] out@[i]@ == k by {
            if self.entries().contains_key(k) {
                let j = choose|j: int| 0 <= j < self.files@.len() && #[trigger] self.files@[j].0@ == k;
                assert(out@[j]@ == k);
            }
            if exists|i: int| 0 <= i < out@.len() && #[trigger] out@[i]@ == k {
                let j = choose|i: int| 0 <= i < out@.len() && #[trigger] out@[i]@ == k;
                assert(self.files@[j].0@ == k);
            }
        }
        out
    }

    /// Whether a file is kept under key `name`.
    pub fn has_model(&self, name: &str) -> (r: bool)
        ensures
            r == self.entries().contains_key(name@),
    {
        let key = name.to_owned();
        assoc_position(&self.files, &key).is_some()
    }
}

/// Different suffixes give different keys.
proof fn lemma_dup_key_injective(name: Seq<char>, a: nat, b: nat)
    requires
        dup_key(name, a) == dup_key(name, b),
    ensures
        a == b,
{
    let k: int = name.len() as int + 1;
    assert(dup_key(name, a).subrange(k, dup_key(name, a).len() as int) =~= dec_nat(a));
    assert(dup_key(name, b).subrange(k, dup_key(name, b).len() as int) =~= dec_nat(b));
    lemma_dec_nat_injective(a, b);
}

/// The key `j`-th in the search for a free key: the name itself, then `<name>#<j>`.
spec fn probe_key(name: Seq<char>, j: int) -> Seq<char> {
    if j == 0 {
        name
    } else {
        dup_key(name, j as nat)
    }
}

/// The name and `n` keys `<name>#1` to `<name>#n`, all present in a list,
/// take `n + 1` of its pairs.
proof fn lemma_dup_keys_bound(v: Seq<(String, FileEntry)>, name: Seq<char>, n: nat)
    requires
        has_key(v, name),
        forall|j: nat| 1 <= j <= n ==> #[trigger] has_key(v, dup_key(name, j)),
    ensures
        n + 1 <= v.len(),
{
    let x = set_int_range(0, n + 1 as int);
    let f = |j: int| choose|i: int| 0 <= i < v.len() && #[trigger] v[i].0@ == probe_key(name, j);
    lemma_int_range(0, n + 1 as int);
    assert forall|j: int| x.contains(j) implies 0 <= #[trigger] f(j) < v.len() && v[f(j)].0@ == probe_key(name, j) by {
        if j == 0 {
            assert(has_key(v, probe_key(name, j)));
        } else {
            assert(has_key(v, dup_key(name, j as nat)));
        }
    }
    assert(vstd::relations::injective_on(f, x)) by {
        assert forall|a: int, b: int| x.contains(a) && x.contains(b) && #[trigger] f(a) == #[trigger] f(b) implies a
            == b by {
            assert(probe_key(name, a) == probe_key(name, b));
            if a != 0 && b != 0 {
                lemma_dup_key_injective(name, a as nat, b as nat);
            } else if a == 0 && b != 0 {
                assert(probe_key(name, b).len() > name.len());
            } else if a != 0 && b == 0 {
                assert(probe_key(name, a).len() > name.len());
            }
        }
    }
    lemma_map_size(x, x.map(f), f);
    lemma_int_range(0, v.len() as int);
    assert(x.map(f).subset_of(set_int_range(0, v.len() as int)));
    lemma_len_subset(x.map(f), set_int_range(0, v.len() as int));
}

/// After a file is added, its model name is in the index, and every name
/// that was there before still is.
pub proof fn law_add_keeps_names(
    m: Map<Seq<char>, (Seq<char>, Seq<char>, FileType)>,
    root: Seq<char>,
    path: Seq<char>,
    ft: FileType,
)
    ensures
        registry_add(m, root, path, ft).contains_key(stem_key(path)),
        forall|k: Seq<char>| m.contains_key(k) ==> #[trigger] registry_add(m, root, path, ft).contains_key(k),
{
}

/// A file whose model name is new is indexed under that name.
pub proof fn law_new_name_indexed(
    m: Map<Seq<char>, (Seq<char>, Seq<char>, FileType)>,
    root: Seq<char>,
    path: Seq<char>,
    ft: FileType,
)
    requires
        !m.contains_key(stem_key(path)),
    ensures
        registry_add(m, root, path, ft)[stem_key(path)] == (stem_key(path), path, ft),
{
}

/// A model archive found at a second path is kept as well: the first stays
/// under the name, the second goes under another key.
pub proof fn law_second_archive_kept(
    m: Map<Seq<char>, (Seq<char>, Seq<char>, FileType)>,
    root: Seq<char>,
    path: Seq<char>,
)
    requires
        m.contains_key(stem_key(path)),
        m[stem_key(path)].2 == FileType::Rob,
        !same_path(m[stem_key(path)].1, path),
    ensures
        registry_add(m, root, path, FileType::Rob)[stem_key(path)] == m[stem_key(path)],
        exists|k: Seq<char>|
            k != stem_key(path) && #[trigger] registry_add(m, root, path, FileType::Rob).contains_key(k)
                && registry_add(m, root, path, FileType::Rob)[k] == (stem_key(path), path, FileType::Rob),
{
    let name = stem_key(path);
    let k = dup_key(name, free_suffix(m, name));
    assert(k.len() > name.len());
    assert(registry_add(m, root, path, FileType::Rob).contains_key(k));
}

} // verus!
