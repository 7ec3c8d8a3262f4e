//! The world database text file: for each world index, its scene map, its
//! optional terrain file and its palette.
use crate::import::lower_chars;
use crate::text::{
    chars_of, first_index, first_index_from, lemma_first_index_bounds, parse_u32_chars, parse_u32_text,
    string_from_chars, to_ascii_lowercase, trim_bounds, trim_ws,
};
use vstd::prelude::*;

verus! {

/// One world entry.
#[derive(Debug, Clone)]
pub struct WorldEntry {
    /// World index (`N` in `world_map[N]`).
    pub index: u32,
    /// Scene path (from `world_map[N]`), as written.
    pub map: String,
    /// Optional terrain path (from `world_world[N]`).
    pub world: Option<String>,
    /// Palette path (from `world_palette[N]`).
    pub palette: String,
}

/// Parsed world database.
#[derive(Debug, Clone)]
pub struct WorldIni {
    pub entries: Vec<WorldEntry>,
}

/// Index of the last `/` or `\` in `s` before `p`, or -1.
pub open spec fn last_separator_before(s: Seq<char>, p: int) -> int
    decreases p,
{
    if p <= 0 || p > s.len() {
        -1
    } else if s[p - 1] == '/' || s[p - 1] == '\\' {
        p - 1
    } else {
        last_separator_before(s, p - 1)
    }
}

/// Index of the last `.` in `s` before `p`, or -1.
pub open spec fn last_dot_before(s: Seq<char>, p: int) -> int
    decreases p,
{
    if p <= 0 || p > s.len() {
        -1
    } else if s[p - 1] == '.' {
        p - 1
    } else {
        last_dot_before(s, p - 1)
    }
}

/// The file name of a path value: the trimmed text after its last `/` or `\`.
pub open spec fn file_name_of(path: Seq<char>) -> Seq<char> {
    let t = trim_ws(path);
    t.subrange(last_separator_before(t, t.len() as int) + 1, t.len() as int)
}

/// The lower-cased file stem of a path value: its file name before the last `.`.
pub open spec fn stem_lower_of(path: Seq<char>) -> Seq<char> {
    let f = file_name_of(path);
    let d = last_dot_before(f, f.len() as int);
    lower_chars(if d >= 0 { f.subrange(0, d) } else { f })
}

fn last_separator(s: &[char]) -> (r: usize)
    ensures
        r == last_separator_before(s@, s@.len() as int) + 1,
        r <= s@.len(),
{
    let mut p: usize = s.len();
    while p > 0 && s[p - 1] != '/' && s[p - 1] != '\\'
        invariant
            p <= s@.len(),
            last_separator_before(s@, s@.len() as int) == last_separator_before(s@, p as int),
        decreases p,
    {
        p -= 1;
    }
    p
}

fn last_dot(s: &[char]) -> (r: Option<usize>)
    ensures
        match r {
            Some(d) => d == last_dot_before(s@, s@.len() as int) && d < s@.len(),
            None => last_dot_before(s@, s@.len() as int) == -1,
        },
{
    let mut p: usize = s.len();
    while p > 0 && s[p - 1] != '.'
        invariant
            p <= s@.len(),
            last_dot_before(s@, s@.len() as int) == last_dot_before(s@, p as int),
        decreases p,
    {
        p -= 1;
    }
    if p == 0 {
        None
    } else {
        Some(p - 1)
    }
}

/// The file name of a path value, backslash or slash separated.
pub fn extract_filename(ini_path: &str) -> (r: String)
    ensures
        r@ == file_name_of(ini_path@),
{
    let cs = chars_of(ini_path);
    let (a, b) = trim_bounds(cs.as_slice());
    let t = vstd::slice::slice_subrange(cs.as_slice(), a, b);
    let start = last_separator(t);
    string_from_chars(vstd::slice::slice_subrange(t, start, t.len()))
}

/// The lower-cased file stem of a path value, for case-insensitive matching.
pub fn stem_lower(ini_path: &str) -> (r: String)
    ensures
        r@ == stem_lower_of(ini_path@),
{
    let filename = extract_filename(ini_path);
    let cs = chars_of(filename.as_str());
    let stem = match last_dot(cs.as_slice()) {
        Some(d) => string_from_chars(vstd::slice::slice_subrange(cs.as_slice(), 0, d)),
        None => string_from_chars(cs.as_slice()),
    };
    to_ascii_lowercase(stem.as_str())
}

} // verus!

verus! {

/// `N` when `key` is `prefix[N]` with `N` a number.
pub open spec fn indexed_key(key: Seq<char>, prefix: Seq<char>) -> Option<u32> {
    let p = prefix.len() as int;
    if key.len() >= p + 2 && key.subrange(0, p) == prefix && key[p] == '[' && key.last() == ']' {
        parse_u32_text(key.subrange(p + 1, key.len() - 1))
    } else {
        None
    }
}

/// Parses `prefix[N]` into `N`.
fn parse_indexed_key(key: &[char], prefix: &str) -> (r: Option<u32>)
    ensures
        r == indexed_key(key@, prefix@),
{
    let pc = chars_of(prefix);
    let p: usize = pc.len();
    let n: usize = key.len();
    if n < 2 || p > n - 2 {
        return None;
    }
    let mut i: usize = 0;
    while i < p
        invariant
            p == pc@.len() == prefix@.len(),
            pc@ == prefix@,
            p + 2 <= n == key@.len(),
            i <= p,
            key@.subrange(0, i as int) == pc@.subrange(0, i as int),
        decreases p - i,
    {
        if key[i] != pc[i] {
            assert(key@.subrange(0, p as int)[i as int] != prefix@[i as int]);
            return None;
        }
        assert(key@.subrange(0, i + 1) =~= key@.subrange(0, i as int).push(key@[i as int]));
        assert(pc@.subrange(0, i + 1) =~= pc@.subrange(0, i as int).push(pc@[i as int]));
        i += 1;
    }
    assert(pc@.subrange(0, p as int) =~= pc@);
    if key[p] != '[' || key[n - 1] != ']' {
        return None;
    }
    parse_u32_chars(vstd::slice::slice_subrange(key, p + 1, n - 1))
}

} // verus!

verus! {

/// No index occurs twice.
pub open spec fn idx_unique(v: Seq<(u32, String)>) -> bool {
    forall|i: int, j: int| 0 <= i < v.len() && 0 <= j < v.len() && i != j ==> #[trigger] v[i].0 != #[trigger] v[j].0
}

/// Some pair has index `k`.
pub open spec fn has_idx(v: Seq<(u32, String)>, k: u32) -> bool {
    exists|j: int| 0 <= j < v.len() && #[trigger] v[j].0 == k
}

/// The map from indices to texts that the pairs stand for.
pub open spec fn idx_map(v: Seq<(u32, String)>) -> Map<u32, Seq<char>> {
    Map::new(|k: u32| has_idx(v, k), |k: u32| v[choose|j: int| 0 <= j < v.len() && #[trigger] v[j].0 == k].1@)
}

fn idx_position(v: &Vec<(u32, String)>, k: u32) -> (r: Option<usize>)
    ensures
        r is None <==> !has_idx(v@, k),
        r matches Some(j) ==> j < v@.len() && v@[j as int].0 == k,
{
    let mut j: usize = 0;
    while j < v.len()
        invariant
            j <= v@.len(),
            forall|i: int| 0 <= i < j ==> #[trigger] v@[i].0 != k,
        decreases v@.len() - j,
    {
        if v[j].0 == k {
            return Some(j);
        }
        j += 1;
    }
    None
}

fn idx_get(v: &Vec<(u32, String)>, k: u32) -> (r: Option<String>)
    requires
        idx_unique(v@),
    ensures
        r is Some <==> idx_map(v@).contains_key(k),
        r matches Some(s) ==> s@ == idx_map(v@)[k],
{
    match idx_position(v, k) {
        Some(j) => {
            let ghost c = choose|i: int| 0 <= i < v@.len() && #[trigger] v@[i].0 == k;
            assert(c == j);
            Some(v[j].1.clone())
        },
        None => None,
    }
}

fn idx_insert(v: &mut Vec<(u32, String)>, k: u32, val: String)
    requires
        idx_unique(old(v)@),
    ensures
        idx_unique(final(v)@),
        idx_map(final(v)@) == idx_map(old(v)@).insert(k, val@),
{
    let ghost valv = val@;
    match idx_position(v, k) {
        Some(j) => {
            let ghost before = v@;
            v.set(j, (k, val));
            let ghost after = v@;
            assert forall|key: u32| #[trigger] has_idx(after, key) <==> has_idx(before, key) by {
                if has_idx(before, key) {
                    let i = choose|i: int| 0 <= i < before.len() && before[i].0 == key;
                    assert(after[i].0 == key);
                }
                if has_idx(after, key) {
                    let i = choose|i: int| 0 <= i < after.len() && after[i].0 == key;
                    assert(before[i].0 == key);
                }
            }
            assert(idx_map(after) =~= idx_map(before).insert(k, valv)) by {
                assert forall|key: u32| #[trigger] idx_map(after).contains_key(key) implies idx_map(after)[key]
                    == idx_map(before).insert(k, valv)[key] by {
                    let i = choose|i: int| 0 <= i < after.len() && #[trigger] after[i].0 == key;
                    if key == k {
                        assert(i == j);
                    } else {
                        let i2 = choose|i2: int| 0 <= i2 < before.len() && #[trigger] before[i2].0 == key;
                        assert(i2 == i);
                    }
                }
            }
        },
        None => {
            let ghost before = v@;
            v.push((k, val));
            let ghost after = v@;
            assert(after[before.len() as int].0 == k);
            assert forall|key: u32| #[trigger] has_idx(after, key) <==> (has_idx(before, key) || key == k) by {
                if has_idx(before, key) {
                    let i = choose|i: int| 0 <= i < before.len() && before[i].0 == key;
                    assert(after[i].0 == key);
                }
                if has_idx(after, key) && key != k {
                    let i = choose|i: int| 0 <= i < after.len() && after[i].0 == key;
                    assert(before[i].0 == key);
                }
                if key == k {
                    assert(after[before.len() as int].0 == key);
                }
            }
            assert(idx_map(after) =~= idx_map(before).insert(k, valv)) by {
                assert forall|key: u32| #[trigger] idx_map(after).contains_key(key) implies idx_map(after)[key]
                    == idx_map(before).insert(k, valv)[key] by {
                    let i = choose|i: int| 0 <= i < after.len() && #[trigger] after[i].0 == key;
                    if key == k {
                        assert(i == before.len());
                    } else {
                        let i2 = choose|i2: int| 0 <= i2 < before.len() && #[trigger] before[i2].0 == key;
                        assert(after[i2].0 == key);
                        assert(i2 == i);
                    }
                }
            }
        },
    }
}

} // verus!

verus! {

/// Keyed values collected from the lines.
pub struct IniMaps {
    pub maps: Map<u32, Seq<char>>,
    pub worlds: Map<u32, Seq<char>>,
    pub palettes: Map<u32, Seq<char>>,
}

/// Nothing collected yet.
pub open spec fn ini_empty() -> IniMaps {
    IniMaps { maps: Map::empty(), worlds: Map::empty(), palettes: Map::empty() }
}

/// Collected values after one line. Blank lines, comments (`;`, `#`),
/// section headers (`[`) and lines without `=` are skipped; otherwise the
/// trimmed, lower-cased key `world_map[N]`, `world_world[N]` or
/// `world_palette[N]` sets entry `N` to the trimmed value.
pub open spec fn line_step(line: Seq<char>, st: IniMaps) -> IniMaps {
    let l = trim_ws(line);
    if l.len() == 0 || l[0] == ';' || l[0] == '#' || l[0] == '[' {
        st
    } else {
        let eq = first_index_from(l, 0, '=');
        if eq >= l.len() {
            st
        } else {
            let key = lower_chars(trim_ws(l.subrange(0, eq)));
            let value = trim_ws(l.subrange(eq + 1, l.len() as int));
            match indexed_key(key, "world_map"@) {
                Some(i) => IniMaps { maps: st.maps.insert(i, value), ..st },
                None => match indexed_key(key, "world_world"@) {
                    Some(i) => IniMaps { worlds: st.worlds.insert(i, value), ..st },
                    None => match indexed_key(key, "world_palette"@) {
                        Some(i) => IniMaps { palettes: st.palettes.insert(i, value), ..st },
                        None => st,
                    },
                },
            }
        }
    }
}

/// Collected values after the lines from `p` on (lines end at `\n`).
pub open spec fn ini_from(s: Seq<char>, p: int, st: IniMaps) -> IniMaps
    decreases s.len() - p,
{
    if p < 0 || p > s.len() {
        st
    } else {
        let k = first_index_from(s, p, '\n');
        let st2 = line_step(s.subrange(p, k), st);
        if k >= s.len() {
            st2
        } else {
            proof {
                lemma_first_index_bounds(s, p, '\n');
            }
            ini_from(s, k + 1, st2)
        }
    }
}

/// `e` is the entry the collected values give for its index: a map and a
/// palette are present, and the terrain path when one is.
pub open spec fn entry_of(e: WorldEntry, st: IniMaps) -> bool {
    &&& st.maps.contains_key(e.index)
    &&& st.palettes.contains_key(e.index)
    &&& e.map@ == st.maps[e.index]
    &&& e.palette@ == st.palettes[e.index]
    &&& match e.world {
        Some(w) => st.worlds.contains_key(e.index) && w@ == st.worlds[e.index],
        None => !st.worlds.contains_key(e.index),
    }
}

/// `es` holds one entry per index that has both a map and a palette, in
/// increasing index order.
pub open spec fn entries_of(es: Seq<WorldEntry>, st: IniMaps) -> bool {
    &&& forall|i: int, j: int| 0 <= i < j < es.len() ==> (#[trigger] es[i]).index < (#[trigger] es[j]).index
    &&& forall|i: int| 0 <= i < es.len() ==> entry_of(#[trigger] es[i], st)
    &&& forall|k: u32|
        st.maps.contains_key(k) && st.palettes.contains_key(k) ==> exists|i: int|
            0 <= i < es.len() && (#[trigger] es[i]).index == k
}

/// The values the three lists stand for.
pub open spec fn maps_of(m: Seq<(u32, String)>, w: Seq<(u32, String)>, p: Seq<(u32, String)>) -> IniMaps {
    IniMaps { maps: idx_map(m), worlds: idx_map(w), palettes: idx_map(p) }
}

fn lower_slice(cs: &[char]) -> (r: Vec<char>)
    ensures
        r@ == lower_chars(cs@),
{
    let mut out: Vec<char> = Vec::new();
    let mut i: usize = 0;
    while i < cs.len()
        invariant
            i <= cs@.len(),
            out@ =~= cs@.take(i as int).map_values(|c: char| crate::text::ascii_lower(c)),
        decreases cs@.len() - i,
    {
        out.push(crate::text::char_ascii_lower(cs[i]));
        i += 1;
    }
    assert(cs@.take(i as int) =~= cs@);
    out
}

fn process_line(
    line: &[char],
    maps: &mut Vec<(u32, String)>,
    worlds: &mut Vec<(u32, String)>,
    palettes: &mut Vec<(u32, String)>,
)
    requires
        idx_unique(old(maps)@),
        idx_unique(old(worlds)@),
        idx_unique(old(palettes)@),
    ensures
        idx_unique(final(maps)@),
        idx_unique(final(worlds)@),
        idx_unique(final(palettes)@),
        line_step(line@, maps_of(old(maps)@, old(worlds)@, old(palettes)@)) == maps_of(
            final(maps)@,
            final(worlds)@,
            final(palettes)@,
        ),
{
    let (a, b) = trim_bounds(line);
    let l = vstd::slice::slice_subrange(line, a, b);
    if l.len() == 0 || l[0] == ';' || l[0] == '#' || l[0] == '[' {
        return;
    }
    let eq = first_index(l, 0, '=');
    if eq >= l.len() {
        return;
    }
    let key_part = vstd::slice::slice_subrange(l, 0, eq);
    let (ka, kb) = trim_bounds(key_part);
    let key = lower_slice(vstd::slice::slice_subrange(key_part, ka, kb));
    let value_part = vstd::slice::slice_subrange(l, eq + 1, l.len());
    let (va, vb) = trim_bounds(value_part);
    let value = string_from_chars(vstd::slice::slice_subrange(value_part, va, vb));
    if let Some(idx) = parse_indexed_key(key.as_slice(), "world_map") {
        idx_insert(maps, idx, value);
    } else if let Some(idx) = parse_indexed_key(key.as_slice(), "world_world") {
        idx_insert(worlds, idx, value);
    } else if let Some(idx) = parse_indexed_key(key.as_slice(), "world_palette") {
        idx_insert(palettes, idx, value);
    }
}

} // verus!

verus! {

/// The entry's scene map has file stem `needle` (already lower-cased).
pub open spec fn map_stem_is(e: WorldEntry, needle: Seq<char>) -> bool {
    stem_lower_of(e.map@) == needle
}

/// The entry has a terrain file whose stem is `needle` (already lower-cased).
pub open spec fn world_stem_is(e: WorldEntry, needle: Seq<char>) -> bool {
    match e.world {
        Some(w) => stem_lower_of(w@) == needle,
        None => false,
    }
}

/// Entries strictly increasing by index.
pub open spec fn sorted_by_index(es: Seq<WorldEntry>) -> bool {
    forall|i: int, j: int| 0 <= i < j < es.len() ==> (#[trigger] es[i]).index < (#[trigger] es[j]).index
}

fn insert_sorted(es: &mut Vec<WorldEntry>, e: WorldEntry)
    requires
        sorted_by_index(old(es)@),
        forall|i: int| 0 <= i < old(es)@.len() ==> (#[trigger] old(es)@[i]).index != e.index,
    ensures
        sorted_by_index(final(es)@),
        exists|pos: int| 0 <= pos <= old(es)@.len() && final(es)@ == old(es)@.insert(pos, e),
{
    let mut pos: usize = 0;
    while pos < es.len() && es[pos].index < e.index
        invariant
            pos <= es@.len(),
            forall|i: int| 0 <= i < pos ==> (#[trigger] es@[i]).index < e.index,
        decreases es@.len() - pos,
    {
        pos += 1;
    }
    let ghost before = es@;
    es.insert(pos, e);
    proof {
        assert forall|i: int, j: int| 0 <= i < j < es@.len() implies (#[trigger] es@[i]).index
            < (#[trigger] es@[j]).index by {
            if j < pos {
            } else if j == pos {
            } else if i < pos {
                assert(before[j - 1].index != e.index);
                if pos < before.len() {
                    assert(before[pos as int].index >= e.index);
                    if j - 1 > pos {
                        assert(before[pos as int].index < before[j - 1].index);
                    }
                }
            } else if i == pos {
                assert(before[pos as int].index >= e.index);
                assert(before[j - 1].index != e.index);
                if j - 1 > pos {
                    assert(before[pos as int].index < before[j - 1].index);
                }
            } else {
                assert(before[i - 1].index < before[j - 1].index);
            }
        }
        assert(es@ == before.insert(pos as int, e));
    }
}

/// Every entry is the one the collected values give for its index.
pub open spec fn all_entries_of(es: Seq<WorldEntry>, st: IniMaps) -> bool {
    forall|i: int| 0 <= i < es.len() ==> entry_of(#[trigger] es[i], st)
}

/// Every entry's index is that of one of the first `j` pairs.
pub open spec fn from_first(es: Seq<WorldEntry>, m: Seq<(u32, String)>, j: int) -> bool {
    forall|i: int| 0 <= i < es.len() ==> exists|k: int| 0 <= k < j && (#[trigger] m[k]).0 == (#[trigger] es[i]).index
}

/// Each of the first `j` pairs whose index has a palette has an entry.
pub open spec fn covers_first(es: Seq<WorldEntry>, m: Seq<(u32, String)>, j: int, st: IniMaps) -> bool {
    forall|k: int|
        0 <= k < j && st.palettes.contains_key((#[trigger] m[k]).0) ==> exists|i: int|
            0 <= i < es.len() && (#[trigger] es[i]).index == m[k].0
}

proof fn lemma_entry_added(
    before: Seq<WorldEntry>,
    after: Seq<WorldEntry>,
    pos: int,
    e: WorldEntry,
    m: Seq<(u32, String)>,
    j: int,
    st: IniMaps,
)
    requires
        0 <= pos <= before.len(),
        after == before.insert(pos, e),
        0 <= j < m.len(),
        m[j].0 == e.index,
        entry_of(e, st),
        all_entries_of(before, st),
        from_first(before, m, j),
        covers_first(before, m, j, st),
    ensures
        all_entries_of(after, st),
        from_first(after, m, j + 1),
        covers_first(after, m, j + 1, st),
{
    lemma_added_entries_of(before, after, pos, e, st);
    lemma_added_from_first(before, after, pos, e, m, j);
    lemma_added_covers(before, after, pos, e, m, j, st);
}

proof fn lemma_added_entries_of(before: Seq<WorldEntry>, after: Seq<WorldEntry>, pos: int, e: WorldEntry, st: IniMaps)
    requires
        0 <= pos <= before.len(),
        after == before.insert(pos, e),
        entry_of(e, st),
        all_entries_of(before, st),
    ensures
        all_entries_of(after, st),
{
    assert forall|i: int| 0 <= i < after.len() implies entry_of(#[trigger] after[i], st) by {
        if i < pos {
            assert(after[i] == before[i]);
        } else if i > pos {
            assert(after[i] == before[i - 1]);
        }
    }
}

proof fn lemma_added_from_first(
    before: Seq<WorldEntry>,
    after: Seq<WorldEntry>,
    pos: int,
    e: WorldEntry,
    m: Seq<(u32, String)>,
    j: int,
)
    requires
        0 <= pos <= before.len(),
        after == before.insert(pos, e),
        0 <= j < m.len(),
        m[j].0 == e.index,
        from_first(before, m, j),
    ensures
        from_first(after, m, j + 1),
{
    assert forall|i: int| 0 <= i < after.len() implies exists|k: int|
        0 <= k < j + 1 && (#[trigger] m[k]).0 == (#[trigger] after[i]).index by {
        if i < pos {
            assert(after[i] == before[i]);
            let k = choose|k: int| 0 <= k < j && (#[trigger] m[k]).0 == (#[trigger] before[i]).index;
            assert(m[k].0 == after[i].index);
        } else if i > pos {
            assert(after[i] == before[i - 1]);
            let k = choose|k: int| 0 <= k < j && (#[trigger] m[k]).0 == (#[trigger] before[i - 1]).index;
            assert(m[k].0 == after[i].index);
        } else {
            assert(m[j].0 == after[i].index);
        }
    }
}

proof fn lemma_added_covers(
    before: Seq<WorldEntry>,
    after: Seq<WorldEntry>,
    pos: int,
    e: WorldEntry,
    m: Seq<(u32, String)>,
    j: int,
    st: IniMaps,
)
    requires
        0 <= pos <= before.len(),
        after == before.insert(pos, e),
        0 <= j < m.len(),
        m[j].0 == e.index,
        covers_first(before, m, j, st),
    ensures
        covers_first(after, m, j + 1, st),
{
    assert forall|k: int|
        0 <= k < j + 1 && st.palettes.contains_key((#[trigger] m[k]).0) implies exists|i: int|
        0 <= i < after.len() && (#[trigger] after[i]).index == m[k].0 by {
        if k < j {
            let i = choose|i: int| 0 <= i < before.len() && (#[trigger] before[i]).index == m[k].0;
            if i < pos {
                assert(after[i] == before[i]);
            } else {
                assert(after[i + 1] == before[i]);
            }
        } else {
            assert(after[pos] == e);
        }
    }
}

proof fn lemma_entry_skipped(es: Seq<WorldEntry>, m: Seq<(u32, String)>, j: int, st: IniMaps)
    requires
        0 <= j < m.len(),
        !st.palettes.contains_key(m[j].0),
        from_first(es, m, j),
        covers_first(es, m, j, st),
    ensures
        from_first(es, m, j + 1),
        covers_first(es, m, j + 1, st),
{
    assert forall|i: int| 0 <= i < es.len() implies exists|k: int|
        0 <= k < j + 1 && (#[trigger] m[k]).0 == (#[trigger] es[i]).index by {
        let k = choose|k: int| 0 <= k < j && (#[trigger] m[k]).0 == (#[trigger] es[i]).index;
        assert(m[k].0 == es[i].index);
    }
}

fn collect_entries(
    maps: &Vec<(u32, String)>,
    worlds: &Vec<(u32, String)>,
    palettes: &Vec<(u32, String)>,
) -> (r: Vec<WorldEntry>)
    requires
        idx_unique(maps@),
        idx_unique(worlds@),
        idx_unique(palettes@),
    ensures
        entries_of(r@, maps_of(maps@, worlds@, palettes@)),
{
    let ghost st = maps_of(maps@, worlds@, palettes@);
    let mut entries: Vec<WorldEntry> = Vec::new();
    let mut j: usize = 0;
    while j < maps.len()
        invariant
            j <= maps@.len(),
            idx_unique(maps@),
            idx_unique(worlds@),
            idx_unique(palettes@),
            st == maps_of(maps@, worlds@, palettes@),
            sorted_by_index(entries@),
            all_entries_of(entries@, st),
            from_first(entries@, maps@, j as int),
            covers_first(entries@, maps@, j as int, st),
        decreases maps@.len() - j,
    {
        let idx: u32 = maps[j].0;
        proof {
            assert(has_idx(maps@, idx));
            let c = choose|i: int| 0 <= i < maps@.len() && #[trigger] maps@[i].0 == idx;
            assert(c == j);
        }
        match idx_get(palettes, idx) {
            Some(palette) => {
                let world = idx_get(worlds, idx);
                let e = WorldEntry { index: idx, map: maps[j].1.clone(), world, palette };
                let ghost before = entries@;
                proof {
                    assert forall|i: int| 0 <= i < before.len() implies (#[trigger] before[i]).index
                        != e.index by {
                        let k = choose|k: int| 0 <= k < j && (#[trigger] maps@[k]).0 == (#[trigger] before[i]).index;
                        assert(maps@[k].0 != maps@[j as int].0);
                    }
                    assert(entry_of(e, st));
                }
                insert_sorted(&mut entries, e);
                proof {
                    let pos = choose|pos: int| 0 <= pos <= before.len() && entries@ == before.insert(pos, e);
                    lemma_entry_added(before, entries@, pos, e, maps@, j as int, st);
                }
            },
            None => {
                proof {
                    lemma_entry_skipped(entries@, maps@, j as int, st);
                }
            },
        }
        j += 1;
    }
    proof {
        assert forall|k: u32| st.maps.contains_key(k) && st.palettes.contains_key(k) implies exists|i: int|
            0 <= i < entries@.len() && (#[trigger] entries@[i]).index == k by {
            let m = choose|m: int| 0 <= m < maps@.len() && #[trigger] maps@[m].0 == k;
            assert(st.palettes.contains_key(maps@[m].0));
        }
    }
    entries
}

impl WorldIni {
    /// Parses the text of the world database. Only `world_map[N]`,
    /// `world_world[N]` and `world_palette[N]` are read (keys compared
    /// case-insensitively, later lines overriding earlier ones); other keys
    /// and malformed lines are skipped. An index becomes an entry only when
    /// it has both a map and a palette; entries come in increasing index
    /// order.
    pub fn parse(content: &str) -> (r: WorldIni)
        ensures
            entries_of(r.entries@, ini_from(content@, 0, ini_empty())),
    {
        let cs = chars_of(content);
        let n: usize = cs.len();
        let mut maps: Vec<(u32, String)> = Vec::new();
        let mut worlds: Vec<(u32, String)> = Vec::new();
        let mut palettes: Vec<(u32, String)> = Vec::new();
        proof {
            assert(maps_of(maps@, worlds@, palettes@) == ini_empty()) by {
                assert(idx_map(maps@) =~= Map::empty());
                assert(idx_map(worlds@) =~= Map::empty());
                assert(idx_map(palettes@) =~= Map::empty());
            }
        }
        let mut p: usize = 0;
        let mut done: bool = false;
        while !done
            invariant
                n == cs@.len(),
                cs@ == content@,
                p <= n,
                idx_unique(maps@),
                idx_unique(worlds@),
                idx_unique(palettes@),
                !done ==> ini_from(content@, 0, ini_empty()) == ini_from(
                    content@,
                    p as int,
                    maps_of(maps@, worlds@, palettes@),
                ),
                done ==> ini_from(content@, 0, ini_empty()) == maps_of(maps@, worlds@, palettes@),
            decreases n - p + (if done { 0int } else { 1int }),
        {
            let k = first_index(cs.as_slice(), p, '\n');
            let line = vstd::slice::slice_subrange(cs.as_slice(), p, k);
            process_line(line, &mut maps, &mut worlds, &mut palettes);
            if k >= n {
                done = true;
            } else {
                p = k + 1;
            }
        }
        let entries = collect_entries(&maps, &worlds, &palettes);
        WorldIni { entries }
    }

    /// The entries whose scene map's file stem is `file_stem`, compared
    /// case-insensitively, in entry order.
    pub fn find_by_map_stem(&self, file_stem: &str) -> (r: Vec<&WorldEntry>)
        ensures
            r@.map_values(|e: &WorldEntry| *e) == self.entries@.filter(
                |e: WorldEntry| map_stem_is(e, lower_chars(file_stem@)),
            ),
    {
        let needle = to_ascii_lowercase(file_stem);
        let ghost pred = |e: WorldEntry| map_stem_is(e, lower_chars(file_stem@));
        let mut out: Vec<&WorldEntry> = Vec::new();
        let mut i: usize = 0;
        while i < self.entries.len()
            invariant
                i <= self.entries@.len(),
                needle@ == lower_chars(file_stem@),
                pred == (|e: WorldEntry| map_stem_is(e, lower_chars(file_stem@))),
                out@.map_values(|e: &WorldEntry| *e) == self.entries@.take(i as int).filter(pred),
            decreases self.entries@.len() - i,
        {
            let e = &self.entries[i];
            let ghost before = out@;
            proof {
                assert(self.entries@.take(i + 1) =~= self.entries@.take(i as int).push(*e));
                self.entries@.take(i as int).lemma_filter_push(*e, pred);
            }
            if stem_lower(e.map.as_str()) == needle {
                out.push(e);
                assert(out@.map_values(|e: &WorldEntry| *e) =~= before.map_values(|e: &WorldEntry| *e).push(*e));
            }
            i += 1;
        }
        assert(self.entries@.take(i as int) =~= self.entries@);
        out
    }

    /// The entries whose terrain file's stem is `file_stem`, compared
    /// case-insensitively, in entry order; entries without a terrain file
    /// never match.
    pub fn find_by_world_stem(&self, file_stem: &str) -> (r: Vec<&WorldEntry>)
        ensures
            r@.map_values(|e: &WorldEntry| *e) == self.entries@.filter(
                |e: WorldEntry| world_stem_is(e, lower_chars(file_stem@)),
            ),
    {
        let needle = to_ascii_lowercase(file_stem);
        let ghost pred = |e: WorldEntry| world_stem_is(e, lower_chars(file_stem@));
        let mut out: Vec<&WorldEntry> = Vec::new();
        let mut i: usize = 0;
        while i < self.entries.len()
            invariant
                i <= self.entries@.len(),
                needle@ == lower_chars(file_stem@),
                pred == (|e: WorldEntry| world_stem_is(e, lower_chars(file_stem@))),
                out@.map_values(|e: &WorldEntry| *e) == self.entries@.take(i as int).filter(pred),
            decreases self.entries@.len() - i,
        {
            let e = &self.entries[i];
            let ghost before = out@;
            proof {
                assert(self.entries@.take(i + 1) =~= self.entries@.take(i as int).push(*e));
                self.entries@.take(i as int).lemma_filter_push(*e, pred);
            }
            let hit = match &e.world {
                Some(w) => stem_lower(w.as_str()) == needle,
                None => false,
            };
            if hit {
                out.push(e);
                assert(out@.map_values(|e: &WorldEntry| *e) =~= before.map_values(|e: &WorldEntry| *e).push(*e));
            }
            i += 1;
        }
        assert(self.entries@.take(i as int) =~= self.entries@);
        out
    }
}

/// Stem lookups ignore case: two stems with the same lower-cased form
/// select the same entries.
pub proof fn law_stem_lookup_ignores_case(entries: Seq<WorldEntry>, a: Seq<char>, b: Seq<char>)
    requires
        lower_chars(a) == lower_chars(b),
    ensures
        entries.filter(|e: WorldEntry| map_stem_is(e, lower_chars(a))) == entries.filter(
            |e: WorldEntry| map_stem_is(e, lower_chars(b)),
        ),
        entries.filter(|e: WorldEntry| world_stem_is(e, lower_chars(a))) == entries.filter(
            |e: WorldEntry| world_stem_is(e, lower_chars(b)),
        ),
{
    assert((|e: WorldEntry| map_stem_is(e, lower_chars(a))) =~= (|e: WorldEntry| map_stem_is(e, lower_chars(b))));
    assert((|e: WorldEntry| world_stem_is(e, lower_chars(a))) =~= (|e: WorldEntry| world_stem_is(e, lower_chars(b))));
}

/// An index gets an entry exactly when it has both a map and a palette,
/// and then only one: the parsed entries are in strictly increasing index
/// order.
pub proof fn law_one_entry_per_complete_index(es: Seq<WorldEntry>, st: IniMaps, k: u32)
    requires
        entries_of(es, st),
    ensures
        (exists|i: int| 0 <= i < es.len() && es[i].index == k) <==> (st.maps.contains_key(k)
            && st.palettes.contains_key(k)),
        forall|i: int, j: int| 0 <= i < es.len() && 0 <= j < es.len() && es[i].index == es[j].index ==> i == j,
{
    if exists|i: int| 0 <= i < es.len() && es[i].index == k {
        let i = choose|i: int| 0 <= i < es.len() && es[i].index == k;
        assert(entry_of(es[i], st));
    }
    assert forall|i: int, j: int| 0 <= i < es.len() && 0 <= j < es.len() && es[i].index == es[j].index implies i == j by {
        if i < j {
            assert(es[i].index < es[j].index);
        } else if j < i {
            assert(es[j].index < es[i].index);
        }
    }
}

/// `path` with each `\\` replaced by `/`.
pub open spec fn normalized_path(path: Seq<char>) -> Seq<char> {
    path.map_values(|c: char| if c == '\\' { '/' } else { c })
}

/// A path value with backslash separators turned into slashes, as files
/// are looked up on disk.
pub fn normalize_ini_path(path: &str) -> (r: String)
    ensures
        r@ == normalized_path(path@),
{
    let cs = chars_of(path);
    let mut out: Vec<char> = Vec::new();
    let mut i: usize = 0;
    while i < cs.len()
        invariant
            i <= cs@.len(),
            cs@ == path@,
            out@ =~= path@.take(i as int).map_values(|c: char| if c == '\\' { '/' } else { c }),
        decreases cs@.len() - i,
    {
        let c = cs[i];
        out.push(if c == '\\' { '/' } else { c });
        i += 1;
    }
    assert(path@.take(i as int) =~= path@);
    string_from_chars(out.as_slice())
}

/// The entry with index `world_id`, if any.
pub fn find_world_entry(ini: &WorldIni, world_id: u32) -> (r: Option<WorldEntry>)
    ensures
        match r {
            Some(e) => exists|i: int|
                0 <= i < ini.entries@.len() && ini.entries@[i].index == world_id && (forall|j: int|
                    0 <= j < i ==> ini.entries@[j].index != world_id) && e.index == world_id && e.map@
                    == ini.entries@[i].map@ && e.palette@ == ini.entries@[i].palette@ && match (e.world, ini.entries@[i].world) {
                    (Some(a), Some(b)) => a@ == b@,
                    (None, None) => true,
                    _ => false,
                },
            None => forall|i: int| 0 <= i < ini.entries@.len() ==> ini.entries@[i].index != world_id,
        },
{
    let mut i: usize = 0;
    while i < ini.entries.len()
        invariant
            i <= ini.entries@.len(),
            forall|j: int| 0 <= j < i ==> ini.entries@[j].index != world_id,
        decreases ini.entries@.len() - i,
    {
        let e = &ini.entries[i];
        if e.index == world_id {
            let world = match &e.world {
                Some(w) => Some(w.clone()),
                None => None,
            };
            return Some(WorldEntry { index: e.index, map: e.map.clone(), world, palette: e.palette.clone() });
        }
        i += 1;
    }
    None
}

} // verus!
