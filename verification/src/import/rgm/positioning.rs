//! Records and indexes that place models in a scene: flat sprites, ropes,
//! the actor records' animation and texture fields, and the lookup of a
//! placed model's file among the indexed assets.
use super::metadata::{rahd_item_name, RAHD_ITEM_SIZE};
use super::parser::{mprp_record, mprp_record_at, read_i24, read_u24, spec_i24, spec_u24};
use super::MprpRecord;
use crate::bytes::{first_zero_from, read_i16_le, read_i32_le, read_u16_le, read_u32_le, spec_i16_of, spec_i32_of, spec_u16_le, spec_u32_le};
use crate::text::{char_is_white_space, chars_of, lossy_string, nul_trimmed_string, string_from_chars, to_ascii_uppercase, trim_bounds, trim_nul, trim_ws, utf8_lossy, first_index, first_index_from};
use crate::import::upper_chars;
use crate::import::registry::{
    has_text, insert_sorted_unique, lemma_text_lt_irreflexive, lemma_text_lt_transitive, matches_at, rank_less, rank_lt,
    rank_of, strictly_sorted, FileEntry, Registry,
};
use vstd::prelude::*;

verus! {

/// Size of an `MPSF` record.
pub const MPSF_ITEM_SIZE: usize = 24;

/// Size of an `MPRP` record.
pub const MPRP_RECORD_SIZE: usize = 80;

/// `k` records of `size` bytes are read from a counted payload (a 32-bit
/// count, then the records from offset 4): as many as the count says, or
/// fewer when the next one would run past the end of the data.
pub open spec fn records_read(d: Seq<u8>, size: int, k: int) -> bool {
    if d.len() < 4 {
        k == 0
    } else {
        &&& 0 <= k <= spec_u32_le(d, 0)
        &&& 4 + size * k <= d.len()
        &&& (k == spec_u32_le(d, 0) || d.len() < 4 + size * (k + 1))
    }
}

/// Number of records of `size` bytes read from a counted payload: the
/// count, or the number that fits in the data when that is smaller.
pub open spec fn lenient_count(d: Seq<u8>, size: int) -> int {
    if d.len() < 4 {
        0
    } else {
        let fit = (d.len() - 4) / size;
        let c = spec_u32_le(d, 0);
        if c < fit {
            c
        } else {
            fit
        }
    }
}

proof fn lemma_div_floor(x: int, size: int, k: int)
    by (nonlinear_arith)
    requires
        size > 0,
        k >= 0,
        size * k <= x,
    ensures
        k <= x / size,
        x < size * (k + 1) ==> x / size == k,
{
}

/// The number of records read is the count or what fits, whichever is smaller.
pub proof fn lemma_records_read_count(d: Seq<u8>, size: int, k: int)
    requires
        size > 0,
        records_read(d, size, k),
    ensures
        k == lenient_count(d, size),
{
    if d.len() >= 4 {
        lemma_div_floor(d.len() - 4, size, k);
    }
}

/// Position, length and model names of a rope record, as values.
pub struct RopeAnchor {
    pub pos_x: int,
    pub pos_y: int,
    pub pos_z: int,
    pub length: int,
    pub static_model: Seq<char>,
    pub rope_model: Seq<char>,
}

/// The anchor of a rope record.
pub open spec fn rope_anchor(r: MprpRecord) -> RopeAnchor {
    RopeAnchor {
        pos_x: r.pos_x as int,
        pos_y: r.pos_y as int,
        pos_z: r.pos_z as int,
        length: r.length as int,
        static_model: r.static_model@,
        rope_model: r.rope_model@,
    }
}

/// The anchor of the 80-byte rope record at `p`.
pub open spec fn rope_anchor_at(d: Seq<u8>, p: int) -> RopeAnchor {
    RopeAnchor {
        pos_x: spec_i24(d, p + 5),
        pos_y: spec_i24(d, p + 9),
        pos_z: spec_u24(d, p + 13),
        length: spec_i16_of(spec_u16_le(d, p + 32)),
        static_model: utf8_lossy(trim_nul(d.subrange(p + 34, p + 43))),
        rope_model: utf8_lossy(trim_nul(d.subrange(p + 43, p + 52))),
    }
}

/// The anchors of the rope records of an `MPRP` payload.
pub open spec fn mprp_anchors(d: Seq<u8>) -> Seq<RopeAnchor> {
    Seq::new(lenient_count(d, 80) as nat, |i: int| rope_anchor_at(d, 4 + 80 * i))
}

/// The flat sprite records of an `MPSF` payload, as a function of the bytes.
pub open spec fn mpsf_count(d: Seq<u8>) -> int {
    lenient_count(d, 24)
}

/// Flat sprite placement (`MPSF` record): a position and the texture shown.
#[derive(Debug, Clone, Copy)]
pub struct MpsfRecord {
    pub pos_x: i32,
    pub pos_y: i32,
    pub pos_z: u32,
    pub texture_id: u16,
    pub image_id: u8,
}

/// `r` is the 24-byte `MPSF` record at `p`: signed 24-bit x and y at 8 and
/// 12, unsigned 24-bit z at 16, and a texture word at 20 whose top nine bits
/// are the texture and low seven bits the image.
pub open spec fn mpsf_record_at(r: MpsfRecord, d: Seq<u8>, p: int) -> bool {
    &&& r.pos_x == spec_i24(d, p + 8)
    &&& r.pos_y == spec_i24(d, p + 12)
    &&& r.pos_z == spec_u24(d, p + 16)
    &&& r.texture_id == spec_u16_le(d, p + 20) / 128
    &&& r.image_id == spec_u16_le(d, p + 20) % 128
}

fn mpsf_record(d: &[u8], p: usize) -> (r: MpsfRecord)
    requires
        p + 24 <= d@.len(),
    ensures
        mpsf_record_at(r, d@, p as int),
{
    let n: usize = d.len();
    let texture_data: u16 = read_u16_le(d, p + 20);
    assert(texture_data & 0x7Fu16 < 128) by (bit_vector);
    let texture_id: u16 = texture_data >> 7u16;
    let image_id: u8 = (texture_data & 0x7Fu16) as u8;
    assert(texture_data >> 7u16 == texture_data / 128) by (bit_vector);
    assert(texture_data & 0x7Fu16 == texture_data % 128) by (bit_vector);
    MpsfRecord {
        pos_x: read_i24(d, p + 8),
        pos_y: read_i24(d, p + 12),
        pos_z: read_u24(d, p + 16),
        texture_id,
        image_id,
    }
}

/// Reads the flat sprite records of an `MPSF` payload.
pub fn parse_mpsf_records(data: &[u8]) -> (r: Vec<MpsfRecord>)
    ensures
        records_read(data@, 24, r@.len() as int),
        r@.len() == mpsf_count(data@),
        forall|i: int| 0 <= i < r@.len() ==> mpsf_record_at(#[trigger] r@[i], data@, 4 + 24 * i),
{
    let n: usize = data.len();
    let mut records: Vec<MpsfRecord> = Vec::new();
    if n < 4 {
        return records;
    }
    let count: u32 = read_u32_le(data, 0);
    let mut cursor: usize = 4;
    while records.len() < count as usize
        invariant
            n == data@.len(),
            n >= 4,
            count == spec_u32_le(data@, 0),
            records@.len() <= count,
            cursor == 4 + 24 * records@.len(),
            cursor <= n,
            forall|i: int| 0 <= i < records@.len() ==> mpsf_record_at(#[trigger] records@[i], data@, 4 + 24 * i),
        decreases count - records@.len(),
    {
        if n - cursor < MPSF_ITEM_SIZE {
            proof {
                lemma_records_read_count(data@, 24, records@.len() as int);
            }
            return records;
        }
        records.push(mpsf_record(data, cursor));
        cursor = cursor + MPSF_ITEM_SIZE;
    }
    proof {
        lemma_records_read_count(data@, 24, records@.len() as int);
    }
    records
}

/// Reads the rope records of an `MPRP` payload.
pub fn parse_mprp_records(data: &[u8]) -> (r: Vec<MprpRecord>)
    ensures
        records_read(data@, 80, r@.len() as int),
        forall|i: int| 0 <= i < r@.len() ==> mprp_record_at(#[trigger] r@[i], data@, 4 + 80 * i),
        r@.map_values(|x: MprpRecord| rope_anchor(x)) == mprp_anchors(data@),
{
    let n: usize = data.len();
    let mut records: Vec<MprpRecord> = Vec::new();
    if n < 4 {
        return records;
    }
    let count: u32 = read_u32_le(data, 0);
    let mut cursor: usize = 4;
    while records.len() < count as usize
        invariant
            n == data@.len(),
            n >= 4,
            count == spec_u32_le(data@, 0),
            records@.len() <= count,
            cursor == 4 + 80 * records@.len(),
            cursor <= n,
            forall|i: int| 0 <= i < records@.len() ==> mprp_record_at(#[trigger] records@[i], data@, 4 + 80 * i),
        decreases count - records@.len(),
    {
        if n - cursor < MPRP_RECORD_SIZE {
            proof {
                lemma_mprp_anchors(data@, records@);
            }
            return records;
        }
        records.push(mprp_record(data, cursor));
        cursor = cursor + MPRP_RECORD_SIZE;
    }
    proof {
        lemma_mprp_anchors(data@, records@);
    }
    records
}

proof fn lemma_mprp_anchors(d: Seq<u8>, v: Seq<MprpRecord>)
    requires
        records_read(d, 80, v.len() as int),
        forall|i: int| 0 <= i < v.len() ==> mprp_record_at(#[trigger] v[i], d, 4 + 80 * i),
    ensures
        v.map_values(|x: MprpRecord| rope_anchor(x)) == mprp_anchors(d),
{
    lemma_records_read_count(d, 80, v.len() as int);
    assert forall|i: int| 0 <= i < v.len() implies #[trigger] rope_anchor(v[i]) == rope_anchor_at(d, 4 + 80 * i) by {
        assert(mprp_record_at(v[i], d, 4 + 80 * i));
    }
    assert(v.map_values(|x: MprpRecord| rope_anchor(x)) =~= mprp_anchors(d));
}

} // verus!

verus! {

/// Animation files of the actor record at `c`: the offset of its first entry
/// in `RAAN` (the signed field at 0x29) and the number of entries (at 0x21),
/// negative values read as 0; nothing when the actor has no name or no entry.
pub open spec fn raan_item(d: Seq<u8>, c: int) -> Option<(usize, usize)> {
    let count = spec_i32_of(spec_u32_le(d, c + 0x21));
    let offset = spec_i32_of(spec_u32_le(d, c + 0x29));
    let cnt: int = if count < 0 { 0 } else { count };
    let off: int = if offset < 0 { 0 } else { offset };
    if rahd_item_name(d, c).len() > 0 && cnt > 0 {
        Some((off as usize, cnt as usize))
    } else {
        None
    }
}

/// Texture of the actor record at `c`: the signed field at 0x9B, negative
/// read as 0; nothing when the actor has no name or the field is 0.
pub open spec fn texture_item(d: Seq<u8>, c: int) -> Option<u16> {
    let t = spec_i16_of(spec_u16_le(d, c + 0x9B));
    let tex: int = if t < 0 { 0 } else { t };
    if rahd_item_name(d, c).len() > 0 && tex > 0 {
        Some(tex as u16)
    } else {
        None
    }
}

/// Index built from up to `k` actor records from `c` on: each record for
/// which `f` gives a value maps its name to it, a later record overriding
/// an earlier one.
pub open spec fn rahd_fold<V>(
    d: Seq<u8>,
    c: int,
    k: nat,
    m: Map<Seq<char>, V>,
    f: spec_fn(Seq<u8>, int) -> Option<V>,
) -> Map<Seq<char>, V>
    decreases k,
{
    if k == 0 || c + RAHD_ITEM_SIZE > d.len() {
        m
    } else {
        rahd_fold(
            d,
            c + RAHD_ITEM_SIZE,
            (k - 1) as nat,
            match f(d, c) {
                Some(v) => m.insert(rahd_item_name(d, c), v),
                None => m,
            },
            f,
        )
    }
}

/// The index `f` gives over the actor records of a `RAHD` payload (a record
/// count, then 165-byte records from offset 8).
pub open spec fn rahd_index<V>(d: Seq<u8>, f: spec_fn(Seq<u8>, int) -> Option<V>) -> Map<Seq<char>, V> {
    if d.len() < 8 {
        Map::empty()
    } else {
        rahd_fold(d, 8, spec_u32_le(d, 0) as nat, Map::empty(), f)
    }
}

/// Actor name to the offset and count of its animation files.
pub open spec fn rahd_raan_index(d: Seq<u8>) -> Map<Seq<char>, (usize, usize)> {
    rahd_index(d, |d: Seq<u8>, c: int| raan_item(d, c))
}

/// Actor name to the texture that replaces its model's textures.
pub open spec fn rahd_texture_overrides(d: Seq<u8>) -> Map<Seq<char>, u16> {
    rahd_index(d, |d: Seq<u8>, c: int| texture_item(d, c))
}

/// Maps each actor of a `RAHD` payload that has animation files to their
/// offset in `RAAN` and their count.
pub fn parse_rahd_raan_index(rahd_data: &[u8]) -> (r: Vec<(String, (usize, usize))>)
    ensures
        crate::assoc::keys_unique(r@),
        crate::assoc::assoc_map(r@) == rahd_raan_index(rahd_data@),
{
    let ghost f = |d: Seq<u8>, c: int| raan_item(d, c);
    let n: usize = rahd_data.len();
    let mut out: Vec<(String, (usize, usize))> = Vec::new();
    proof {
        assert(crate::assoc::assoc_map(out@) =~= Map::<Seq<char>, (usize, usize)>::empty());
    }
    if n < 8 {
        return out;
    }
    let count: u32 = read_u32_le(rahd_data, 0);
    let mut cursor: usize = 8;
    let mut k: u32 = 0;
    while k < count
        invariant
            n == rahd_data@.len(),
            8 <= cursor,
            k <= count,
            crate::assoc::keys_unique(out@),
            f == (|d: Seq<u8>, c: int| raan_item(d, c)),
            rahd_raan_index(rahd_data@) == rahd_fold(
                rahd_data@,
                cursor as int,
                (count - k) as nat,
                crate::assoc::assoc_map(out@),
                f,
            ),
        decreases count - k,
    {
        if cursor > n || n - cursor < RAHD_ITEM_SIZE {
            return out;
        }
        let name = nul_trimmed_string(vstd::slice::slice_subrange(rahd_data, cursor + 4, cursor + 13));
        let count_raw = read_i32_le(rahd_data, cursor + 0x21);
        let offset_raw = read_i32_le(rahd_data, cursor + 0x29);
        let raan_count: usize = if count_raw < 0 { 0 } else { count_raw as usize };
        let raan_offset: usize = if offset_raw < 0 { 0 } else { offset_raw as usize };
        assert(f(rahd_data@, cursor as int) == raan_item(rahd_data@, cursor as int));
        if !name.as_str().is_empty() && raan_count > 0 {
            crate::assoc::assoc_insert(&mut out, name, (raan_offset, raan_count));
        }
        cursor = cursor + RAHD_ITEM_SIZE;
        k += 1;
    }
    out
}

/// Maps each actor of a `RAHD` payload that names a texture to it.
pub fn parse_rahd_texture_overrides(rahd_data: &[u8]) -> (r: Vec<(String, u16)>)
    ensures
        crate::assoc::keys_unique(r@),
        crate::assoc::assoc_map(r@) == rahd_texture_overrides(rahd_data@),
{
    let ghost f = |d: Seq<u8>, c: int| texture_item(d, c);
    let n: usize = rahd_data.len();
    let mut out: Vec<(String, u16)> = Vec::new();
    proof {
        assert(crate::assoc::assoc_map(out@) =~= Map::<Seq<char>, u16>::empty());
    }
    if n < 8 {
        return out;
    }
    let count: u32 = read_u32_le(rahd_data, 0);
    let mut cursor: usize = 8;
    let mut k: u32 = 0;
    while k < count
        invariant
            n == rahd_data@.len(),
            8 <= cursor,
            k <= count,
            crate::assoc::keys_unique(out@),
            f == (|d: Seq<u8>, c: int| texture_item(d, c)),
            rahd_texture_overrides(rahd_data@) == rahd_fold(
                rahd_data@,
                cursor as int,
                (count - k) as nat,
                crate::assoc::assoc_map(out@),
                f,
            ),
        decreases count - k,
    {
        if cursor > n || n - cursor < RAHD_ITEM_SIZE {
            return out;
        }
        let name = nul_trimmed_string(vstd::slice::slice_subrange(rahd_data, cursor + 4, cursor + 13));
        let raw = read_i16_le(rahd_data, cursor + 0x9B);
        let texture_id: u16 = if raw < 0 { 0 } else { raw as u16 };
        assert(f(rahd_data@, cursor as int) == texture_item(rahd_data@, cursor as int));
        if !name.as_str().is_empty() && texture_id > 0 {
            crate::assoc::assoc_insert(&mut out, name, texture_id);
        }
        cursor = cursor + RAHD_ITEM_SIZE;
        k += 1;
    }
    out
}

} // verus!

verus! {

/// The part of `s` after its last `c` (all of `s` when there is none).
pub open spec fn after_last(s: Seq<char>, c: char) -> Seq<char>
    decreases s.len(),
{
    if s.len() == 0 {
        s
    } else if s.last() == c {
        Seq::empty()
    } else {
        after_last(s.drop_last(), c).push(s.last())
    }
}

/// `s` with each backslash replaced by a slash.
pub open spec fn forward_slashes(s: Seq<char>) -> Seq<char> {
    s.map_values(|c: char| if c == '\\' { '/' } else { c })
}

/// The model named by the animation file entry at `off` of a `RAAN`
/// payload: the zero-terminated path 6 bytes in, reduced to its file name
/// without extension, trimmed and upper-cased; nothing when the entry runs
/// past the data, the path is empty or unterminated, or the stem is empty.
pub open spec fn raan_model_name(d: Seq<u8>, off: int) -> Option<Seq<char>> {
    if off + 6 > d.len() {
        None
    } else {
        let s = off + 6;
        let e = first_zero_from(d, s);
        if e >= d.len() || e == s {
            None
        } else {
            let file_name = after_last(forward_slashes(utf8_lossy(d.subrange(s, e))), '/');
            let stem = trim_ws(file_name.take(first_index_from(file_name, 0, '.')));
            if stem.len() == 0 {
                None
            } else {
                Some(upper_chars(stem))
            }
        }
    }
}

/// Start of the part of `cs` after its last `c`.
fn after_last_start(cs: &[char], c: char) -> (r: usize)
    ensures
        r <= cs@.len(),
        cs@.skip(r as int) == after_last(cs@, c),
{
    let mut i: usize = cs.len();
    assert(cs@.take(i as int) =~= cs@);
    assert(cs@.skip(i as int) =~= Seq::<char>::empty());
    while i > 0 && cs[i - 1] != c
        invariant
            i <= cs@.len(),
            after_last(cs@, c) == after_last(cs@.take(i as int), c) + cs@.skip(i as int),
        decreases i,
    {
        assert(cs@.take(i as int).drop_last() =~= cs@.take(i - 1));
        assert(cs@.skip(i - 1) =~= seq![cs@[i - 1]] + cs@.skip(i as int));
        assert(after_last(cs@.take(i as int), c) == after_last(cs@.take(i - 1), c).push(cs@[i - 1]));
        assert(after_last(cs@.take(i - 1), c).push(cs@[i - 1]) + cs@.skip(i as int) =~= after_last(
            cs@.take(i - 1),
            c,
        ) + cs@.skip(i - 1));
        i -= 1;
    }
    if i == 0 {
        assert(cs@.take(0) =~= Seq::<char>::empty());
        assert(after_last(cs@, c) =~= cs@.skip(0));
    } else {
        assert(cs@.take(i as int).last() == c);
        assert(after_last(cs@, c) =~= cs@.skip(i as int));
    }
    i
}

/// Reads the model name of the animation file entry at `offset` of a `RAAN`
/// payload.
pub fn parse_raan_model_name(raan_data: &[u8], offset: usize) -> (r: Option<String>)
    ensures
        match r {
            Some(s) => raan_model_name(raan_data@, offset as int) == Some(s@),
            None => raan_model_name(raan_data@, offset as int) is None,
        },
{
    let n: usize = raan_data.len();
    if offset > n || n - offset < 6 {
        return None;
    }
    let start: usize = offset + 6;
    let mut end: usize = start;
    while end < n && raan_data[end] != 0
        invariant
            start <= end <= n == raan_data@.len(),
            first_zero_from(raan_data@, start as int) == first_zero_from(raan_data@, end as int),
        decreases n - end,
    {
        end += 1;
    }
    if end >= n || end == start {
        return None;
    }
    let raw = lossy_string(vstd::slice::slice_subrange(raan_data, start, end));
    let cs = chars_of(raw.as_str());
    let mut normalized: Vec<char> = Vec::new();
    let mut i: usize = 0;
    while i < cs.len()
        invariant
            i <= cs@.len(),
            normalized@ == forward_slashes(cs@.take(i as int)),
        decreases cs@.len() - i,
    {
        let ch = cs[i];
        normalized.push(if ch == '\\' { '/' } else { ch });
        assert(forward_slashes(cs@.take(i + 1)) =~= forward_slashes(cs@.take(i as int)).push(
            if ch == '\\' { '/' } else { ch },
        ));
        i += 1;
    }
    assert(cs@.take(i as int) =~= cs@);
    let from: usize = after_last_start(normalized.as_slice(), '/');
    let file_name = vstd::slice::slice_subrange(normalized.as_slice(), from, normalized.len());
    assert(file_name@ =~= normalized@.skip(from as int));
    let dot: usize = first_index(file_name, 0, '.');
    let before_dot = vstd::slice::slice_subrange(file_name, 0, dot);
    assert(before_dot@ =~= file_name@.take(dot as int));
    let (a, b) = trim_bounds(before_dot);
    if a == b {
        return None;
    }
    let stem = string_from_chars(vstd::slice::slice_subrange(before_dot, a, b));
    let upper = to_ascii_uppercase(stem.as_str());
    assert(upper@ =~= upper_chars(trim_ws(before_dot@)));
    Some(upper)
}

/// The model a scripted object shows: its own model name, else the model of
/// its actor's first animation file, else the script name.
pub open spec fn mpob_model_choice(
    model: Seq<char>,
    script: Seq<char>,
    raan: Option<Seq<u8>>,
    index: Map<Seq<char>, (usize, usize)>,
) -> Seq<char> {
    if model.len() > 0 {
        model
    } else {
        match raan {
            Some(d) => if index.contains_key(script) {
                match raan_model_name(d, index[script].0 as int) {
                    Some(name) => name,
                    None => script,
                }
            } else {
                script
            },
            None => script,
        }
    }
}

/// Resolves the model of a scripted object (see `mpob_model_choice`),
/// given its script name, the `RAAN` payload and the actor index.
pub fn resolve_mpob_model_name(
    record: &super::MpobRecord,
    script_name: &str,
    raan_data: Option<&[u8]>,
    rahd_index: &Vec<(String, (usize, usize))>,
) -> (r: String)
    requires
        crate::assoc::keys_unique(rahd_index@),
    ensures
        r@ == mpob_model_choice(
            utf8_lossy(trim_nul(record.model_name@)),
            script_name@,
            match raan_data {
                Some(d) => Some(d@),
                None => None,
            },
            crate::assoc::assoc_map(rahd_index@),
        ),
{
    let model_name = record.model_name();
    if !model_name.as_str().is_empty() {
        return model_name;
    }
    if let Some(raan) = raan_data {
        let key = script_name.to_owned();
        if let Some(entry) = crate::assoc::assoc_get(rahd_index, &key) {
            if let Some(name) = parse_raan_model_name(raan, entry.0) {
                return name;
            }
        }
    }
    script_name.to_owned()
}

/// Preference among model files: animated models, then models, then archives.
pub fn model_file_rank(file_type: crate::import::FileType) -> (r: Option<usize>)
    ensures
        r == model_rank_of(file_type),
{
    match file_type {
        crate::import::FileType::Model3dc => Some(0),
        crate::import::FileType::Model3d => Some(1),
        crate::import::FileType::Rob => Some(2),
        _ => None,
    }
}

/// Rank of a model file type: 0 for animated models, 1 for models, 2 for
/// archives; other types hold no model.
pub open spec fn model_rank_of(ft: crate::import::FileType) -> Option<usize> {
    match ft {
        crate::import::FileType::Model3dc => Some(0usize),
        crate::import::FileType::Model3d => Some(1usize),
        crate::import::FileType::Rob => Some(2usize),
        _ => None,
    }
}

} // verus!

verus! {

/// `s` without leading and trailing NUL characters.
pub open spec fn trim_nul_chars(s: Seq<char>) -> Seq<char>
    decreases s.len(),
{
    if s.len() > 0 && s[0] == '\0' {
        trim_nul_chars(s.drop_first())
    } else if s.len() > 0 && s.last() == '\0' {
        trim_nul_chars(s.drop_last())
    } else {
        s
    }
}

/// The names under which a model is looked for: the name without NULs and
/// surrounding white space, and its upper-cased form; when it holds a dot,
/// also the part before the first dot and its upper-cased form.
pub open spec fn raw_model_candidates(name: Seq<char>) -> Seq<Seq<char>> {
    let t = trim_ws(trim_nul_chars(name));
    if t.len() == 0 {
        Seq::empty()
    } else {
        let dot = first_index_from(t, 0, '.');
        let both = seq![t, upper_chars(t)];
        if dot < t.len() {
            both + seq![t.take(dot), upper_chars(t.take(dot))]
        } else {
            both
        }
    }
}

fn nul_char_bounds(cs: &[char]) -> (r: (usize, usize))
    ensures
        r.0 <= r.1 <= cs@.len(),
        cs@.subrange(r.0 as int, r.1 as int) == trim_nul_chars(cs@),
{
    let n: usize = cs.len();
    let mut a: usize = 0;
    assert(cs@.subrange(0, n as int) =~= cs@);
    while a < n && cs[a] == '\0'
        invariant
            a <= n == cs@.len(),
            trim_nul_chars(cs@) == trim_nul_chars(cs@.subrange(a as int, n as int)),
        decreases n - a,
    {
        assert(cs@.subrange(a as int, n as int).drop_first() =~= cs@.subrange(a + 1, n as int));
        a += 1;
    }
    let mut b: usize = n;
    while b > a && cs[b - 1] == '\0'
        invariant
            a <= b <= n == cs@.len(),
            a < n ==> cs@[a as int] != '\0',
            trim_nul_chars(cs@) == trim_nul_chars(cs@.subrange(a as int, b as int)),
        decreases b - a,
    {
        assert(cs@.subrange(a as int, b as int).drop_last() =~= cs@.subrange(a as int, b - 1));
        b -= 1;
    }
    (a, b)
}

/// The names under which the model `model_name` is looked for, in
/// code-point order and without repeats.
pub fn model_name_candidates(model_name: &str) -> (r: Vec<String>)
    ensures
        strictly_sorted(r@),
        forall|x: Seq<char>| has_text(r@, x) <==> raw_model_candidates(model_name@).contains(x),
{
    let cs = chars_of(model_name);
    let (a, b) = nul_char_bounds(cs.as_slice());
    let inner = vstd::slice::slice_subrange(cs.as_slice(), a, b);
    let (c, d) = trim_bounds(inner);
    let t = vstd::slice::slice_subrange(inner, c, d);
    assert(t@ =~= trim_ws(trim_nul_chars(model_name@)));
    let ghost raw = raw_model_candidates(model_name@);
    let mut out: Vec<String> = Vec::new();
    if t.len() == 0 {
        proof {
            assert forall|x: Seq<char>| has_text(out@, x) <==> raw.contains(x) by {
            }
        }
        return out;
    }
    let whole = string_from_chars(t);
    let whole_upper = to_ascii_uppercase(whole.as_str());
    let dot: usize = first_index(t, 0, '.');
    let mut list: Vec<String> = Vec::new();
    list.push(whole);
    list.push(whole_upper);
    if dot < t.len() {
        let base = string_from_chars(vstd::slice::slice_subrange(t, 0, dot));
        let base_upper = to_ascii_uppercase(base.as_str());
        list.push(base);
        list.push(base_upper);
        assert(t@.subrange(0, dot as int) =~= t@.take(dot as int));
    }
    assert(list@.len() == raw.len());
    assert(forall|k: int| 0 <= k < raw.len() ==> #[trigger] list@[k]@ == raw[k]);
    let mut k: usize = 0;
    while k < list.len()
        invariant
            k <= list@.len() == raw.len(),
            forall|j: int| 0 <= j < raw.len() ==> #[trigger] list@[j]@ == raw[j],
            strictly_sorted(out@),
            forall|x: Seq<char>| has_text(out@, x) <==> raw.take(k as int).contains(x),
        decreases list@.len() - k,
    {
        let item = list[k].clone();
        insert_sorted_unique(&mut out, item);
        proof {
            assert forall|x: Seq<char>| has_text(out@, x) <==> raw.take(k + 1).contains(x) by {
                if raw.take(k + 1).contains(x) {
                    let j = choose|j: int| 0 <= j < k + 1 && #[trigger] raw.take(k + 1)[j] == x;
                    if j < k {
                        assert(raw.take(k as int)[j] == x);
                    }
                }
                if raw.take(k as int).contains(x) {
                    let j = choose|j: int| 0 <= j < k && #[trigger] raw.take(k as int)[j] == x;
                    assert(raw.take(k + 1)[j] == x);
                }
                if x == raw[k as int] {
                    assert(raw.take(k + 1)[k as int] == x);
                }
            }
        }
        k += 1;
    }
    assert(raw.take(k as int) =~= raw);
    out
}

} // verus!

verus! {

/// Key `key` holds the model `c`: it is `c`, or `c` followed by `#` and more.
pub open spec fn key_matches(key: Seq<char>, c: Seq<char>) -> bool {
    key == c || (key.len() > c.len() && key.take(c.len() + 1int) == c.push('#'))
}

/// Registry pair `e` is a model file that key-matches the name `c`.
pub open spec fn eligible(e: (String, FileEntry), c: Seq<char>) -> bool {
    key_matches(e.0@, c) && model_rank_of(e.1.file_type) is Some
}

/// Priority of a model file: its type's rank, then its path's rank below `root`.
pub open spec fn model_entry_rank(root: Seq<char>, e: FileEntry) -> (int, (int, int, Seq<char>)) {
    (model_rank_of(e.file_type)->Some_0 as int, rank_of(root, e.path@))
}

/// Lexicographic order of model file priorities.
pub open spec fn model_rank_lt(a: (int, (int, int, Seq<char>)), b: (int, (int, int, Seq<char>))) -> bool {
    a.0 < b.0 || (a.0 == b.0 && rank_lt(a.1, b.1))
}

/// No registry pair is a model file for the name `c`.
pub open spec fn no_match(files: Seq<(String, FileEntry)>, c: Seq<char>) -> bool {
    forall|j: int| 0 <= j < files.len() ==> !eligible(#[trigger] files[j], c)
}

/// Pair `j` is what the lookup picks for candidate `ci`: no earlier
/// candidate has a model file, and pair `j` is one for candidate `ci` that
/// no other one for it comes before.
pub open spec fn model_pick(root: Seq<char>, files: Seq<(String, FileEntry)>, cands: Seq<String>, ci: int, j: int) -> bool {
    &&& 0 <= ci < cands.len()
    &&& 0 <= j < files.len()
    &&& eligible(files[j], cands[ci]@)
    &&& forall|c: int| 0 <= c < ci ==> no_match(files, #[trigger] cands[c]@)
    &&& forall|k: int|
        0 <= k < files.len() && eligible(#[trigger] files[k], cands[ci]@) ==> !model_rank_lt(
            model_entry_rank(root, files[k].1),
            model_entry_rank(root, files[j].1),
        )
}

/// Whether `key` holds the model `c`.
fn key_matches_exec(key: &str, c: &str) -> (r: bool)
    ensures
        r == key_matches(key@, c@),
{
    let kc = chars_of(key);
    let mut pat = chars_of(c);
    let ghost cv = pat@;
    if kc.len() == pat.len() {
        let mut i: usize = 0;
        while i < kc.len()
            invariant
                kc@.len() == pat@.len(),
                kc@ == key@,
                pat@ == c@,
                i <= kc@.len(),
                kc@.take(i as int) == pat@.take(i as int),
            decreases kc@.len() - i,
        {
            if kc[i] != pat[i] {
                assert(kc@[i as int] != pat@[i as int]);
                return false;
            }
            assert(kc@.take(i + 1) =~= kc@.take(i as int).push(kc@[i as int]));
            assert(pat@.take(i + 1) =~= pat@.take(i as int).push(pat@[i as int]));
            i += 1;
        }
        assert(kc@ =~= kc@.take(i as int));
        assert(pat@ =~= pat@.take(i as int));
        return true;
    }
    if kc.len() <= pat.len() {
        return false;
    }
    pat.push('#');
    let r = matches_at(kc.as_slice(), 0, pat.as_slice());
    assert(kc@.subrange(0, pat@.len() as int) =~= kc@.take(c@.len() + 1int));
    r
}

/// Priority of a model file as values.
fn entry_rank(registry: &Registry, e: &FileEntry) -> (r: (usize, (usize, usize, String)))
    requires
        model_rank_of(e.file_type) is Some,
    ensures
        (r.0 as int, (r.1.0 as int, r.1.1 as int, r.1.2@)) == model_entry_rank(registry.root_path@, *e),
{
    let t = match model_file_rank(e.file_type) {
        Some(t) => t,
        None => 0,
    };
    (t, registry.source_rank_key(e.path.as_str()))
}

fn entry_rank_less(a: &(usize, (usize, usize, String)), b: &(usize, (usize, usize, String))) -> (r: bool)
    ensures
        r == model_rank_lt(
            (a.0 as int, (a.1.0 as int, a.1.1 as int, a.1.2@)),
            (b.0 as int, (b.1.0 as int, b.1.1 as int, b.1.2@)),
        ),
{
    if a.0 != b.0 {
        a.0 < b.0
    } else {
        rank_less(&a.1, &b.1)
    }
}

/// The model file for the first candidate name that has one: among the
/// registry's model files whose key is the name or the name followed by
/// `#`, one that no other comes before in priority.
pub fn find_model_entry<'a>(registry: &'a Registry, candidates: &Vec<String>) -> (r: Option<&'a FileEntry>)
    ensures
        r is None <==> forall|c: int| 0 <= c < candidates@.len() ==> no_match(registry.files@, #[trigger] candidates@[c]@),
        r matches Some(e) ==> exists|ci: int, j: int|
            #[trigger] model_pick(registry.root_path@, registry.files@, candidates@, ci, j) && registry.files@[j].1 == *e,
{
    let ghost root = registry.root_path@;
    let ghost files = registry.files@;
    let mut ci: usize = 0;
    while ci < candidates.len()
        invariant
            ci <= candidates@.len(),
            root == registry.root_path@,
            files == registry.files@,
            forall|c: int| 0 <= c < ci ==> no_match(files, #[trigger] candidates@[c]@),
        decreases candidates@.len() - ci,
    {
        let cand = candidates[ci].as_str();
        let mut best: Option<(usize, (usize, (usize, usize, String)))> = None;
        let mut j: usize = 0;
        while j < registry.files.len()
            invariant
                j <= files.len(),
                root == registry.root_path@,
                files == registry.files@,
                ci < candidates@.len(),
                cand@ == candidates@[ci as int]@,
                match best {
                    Some((bj, br)) => {
                        &&& bj < j
                        &&& eligible(files[bj as int], cand@)
                        &&& (br.0 as int, (br.1.0 as int, br.1.1 as int, br.1.2@)) == model_entry_rank(root, files[bj as int].1)
                        &&& forall|k: int| 0 <= k < j && eligible(#[trigger] files[k], cand@) ==> !model_rank_lt(
                            model_entry_rank(root, files[k].1),
                            model_entry_rank(root, files[bj as int].1),
                        )
                    },
                    None => forall|k: int| 0 <= k < j ==> !eligible(#[trigger] files[k], cand@),
                },
            decreases files.len() - j,
        {
            let key = registry.files[j].0.as_str();
            let entry = &registry.files[j].1;
            if key_matches_exec(key, cand) && model_file_rank(entry.file_type).is_some() {
                let rank = entry_rank(registry, entry);
                let replace = match &best {
                    Some((_, br)) => entry_rank_less(&rank, br),
                    None => true,
                };
                if replace {
                    proof {
                        match best {
                            Some((bj, br)) => {
                                assert forall|k: int| 0 <= k < j + 1 && eligible(#[trigger] files[k], cand@) implies !model_rank_lt(
                                    model_entry_rank(root, files[k].1),
                                    model_entry_rank(root, files[j as int].1),
                                ) by {
                                    if k < j {
                                        lemma_model_rank_lt_asym_trans(
                                            root,
                                            files[k].1,
                                            files[bj as int].1,
                                            files[j as int].1,
                                        );
                                    } else {
                                        lemma_model_rank_lt_irreflexive(model_entry_rank(root, files[j as int].1));
                                    }
                                }
                            },
                            None => {
                                assert forall|k: int| 0 <= k < j + 1 && eligible(#[trigger] files[k], cand@) implies !model_rank_lt(
                                    model_entry_rank(root, files[k].1),
                                    model_entry_rank(root, files[j as int].1),
                                ) by {
                                    lemma_model_rank_lt_irreflexive(model_entry_rank(root, files[j as int].1));
                                }
                            },
                        }
                    }
                    best = Some((j, rank));
                }
            }
            j += 1;
        }
        match best {
            Some((bj, _)) => {
                proof {
                    assert(model_pick(root, files, candidates@, ci as int, bj as int));
                    assert(registry.files@[bj as int].1 == registry.files@[bj as int].1);
                }
                return Some(&registry.files[bj].1);
            },
            None => {
                assert(no_match(files, candidates@[ci as int]@));
            },
        }
        ci += 1;
    }
    None
}

/// No priority comes before itself.
proof fn lemma_model_rank_lt_irreflexive(a: (int, (int, int, Seq<char>)))
    ensures
        !model_rank_lt(a, a),
{
    lemma_text_lt_irreflexive(a.1.2);
}

/// If `k` comes before `j`, and `j` before `b`, or `k` does not come
/// before `b` while `j` does, then the order is kept: `k` does not come
/// before `j` unless it comes before `b`.
proof fn lemma_model_rank_lt_asym_trans(root: Seq<char>, k: FileEntry, b: FileEntry, j: FileEntry)
    requires
        !model_rank_lt(model_entry_rank(root, k), model_entry_rank(root, b)),
        model_rank_lt(model_entry_rank(root, j), model_entry_rank(root, b)) || model_entry_rank(root, k)
            == model_entry_rank(root, j),
    ensures
        !model_rank_lt(model_entry_rank(root, k), model_entry_rank(root, j)),
{
    let rk = model_entry_rank(root, k);
    let rb = model_entry_rank(root, b);
    let rj = model_entry_rank(root, j);
    lemma_text_lt_irreflexive(rk.1.2);
    if model_rank_lt(rk, rj) && model_rank_lt(rj, rb) {
        if rk.0 == rj.0 && rj.0 == rb.0 && rk.1.0 == rj.1.0 && rj.1.0 == rb.1.0 && rk.1.1 == rj.1.1 && rj.1.1
            == rb.1.1 {
            lemma_text_lt_transitive(rk.1.2, rj.1.2, rb.1.2);
        }
    }
}

} // verus!

verus! {

/// The texture of a face after an actor's texture replaces its model's: a
/// texture from 2 on becomes the actor's texture (image kept); a solid
/// colour becomes image 0 of it; textures 0 and 1 stay.
pub open spec fn overridden_texture(t: crate::import::model3d::TextureData, tex: u16) -> crate::import::model3d::TextureData {
    match t {
        crate::import::model3d::TextureData::Texture { texture_id, image_id } => if texture_id >= 2 {
            crate::import::model3d::TextureData::Texture { texture_id: tex, image_id }
        } else {
            t
        },
        crate::import::model3d::TextureData::SolidColor(_) => crate::import::model3d::TextureData::Texture {
            texture_id: tex,
            image_id: 0,
        },
    }
}

/// Replaces the textures of a model's faces by an actor's texture (see
/// `overridden_texture`); nothing else of the model changes.
pub fn apply_texture_override(model: &mut crate::import::model3d::Model3DFile, texture_override: u16)
    ensures
        final(model).face_data@.len() == old(model).face_data@.len(),
        forall|i: int|
            0 <= i < final(model).face_data@.len() ==> {
                let a = #[trigger] final(model).face_data@[i];
                let b = old(model).face_data@[i];
                &&& a.texture_data == overridden_texture(b.texture_data, texture_override)
                &&& a.vertex_count == b.vertex_count
                &&& a.tex_hi == b.tex_hi
                &&& a.face_vertices == b.face_vertices
            },
        final(model).header == old(model).header,
        final(model).version == old(model).version,
        final(model).frame_data == old(model).frame_data,
        final(model).vertex_coords == old(model).vertex_coords,
        final(model).face_normals == old(model).face_normals,
        final(model).normal_indices == old(model).normal_indices,
        final(model).vertex_normals == old(model).vertex_normals,
        final(model).frame_vertex_data == old(model).frame_vertex_data,
        final(model).frame_normal_data == old(model).frame_normal_data,
{
    let ghost before = model.face_data@;
    let mut faces: Vec<crate::import::model3d::FaceData> = Vec::new();
    std::mem::swap(&mut faces, &mut model.face_data);
    let mut i: usize = 0;
    while i < faces.len()
        invariant
            i <= faces@.len() == before.len(),
            forall|k: int|
                0 <= k < faces@.len() ==> {
                    let a = #[trigger] faces@[k];
                    let b = before[k];
                    &&& a.texture_data == (if k < i {
                        overridden_texture(b.texture_data, texture_override)
                    } else {
                        b.texture_data
                    })
                    &&& a.vertex_count == b.vertex_count
                    &&& a.tex_hi == b.tex_hi
                    &&& a.face_vertices == b.face_vertices
                },
        decreases before.len() - i,
    {
        let ghost pre = faces@;
        let mut face = faces.remove(i);
        let new_texture = match face.texture_data {
            crate::import::model3d::TextureData::Texture { texture_id, image_id } => if texture_id >= 2 {
                crate::import::model3d::TextureData::Texture { texture_id: texture_override, image_id }
            } else {
                face.texture_data
            },
            crate::import::model3d::TextureData::SolidColor(_) => crate::import::model3d::TextureData::Texture {
                texture_id: texture_override,
                image_id: 0,
            },
        };
        face.texture_data = new_texture;
        faces.insert(i, face);
        assert(faces@ =~= pre.update(i as int, face));
        i += 1;
    }
    model.face_data = faces;
}

} // verus!

verus! {

/// Priority of a ROB file when the models of its segments are searched:
/// first the ROB whose file stem is `preferred` (ASCII case ignored), then
/// by its path's rank below `root`.
pub open spec fn rob_rank(root: Seq<char>, preferred: Option<Seq<char>>, e: FileEntry) -> (int, (int, int, Seq<char>)) {
    let first = match preferred {
        Some(p) => upper_chars(crate::import::registry::stem_key(e.path@)) == upper_chars(p),
        None => false,
    };
    (if first { 0int } else { 1int }, rank_of(root, e.path@))
}

/// Priorities in order: none comes before an earlier one.
pub open spec fn ranks_ordered(v: Seq<(int, (int, int, Seq<char>))>) -> bool {
    forall|a: int, b: int| 0 <= a < b < v.len() ==> !#[trigger] model_rank_lt(v[b], v[a])
}

/// The order of priorities is transitive.
proof fn lemma_model_rank_lt_transitive(
    a: (int, (int, int, Seq<char>)),
    b: (int, (int, int, Seq<char>)),
    c: (int, (int, int, Seq<char>)),
)
    requires
        model_rank_lt(a, b),
        model_rank_lt(b, c),
    ensures
        model_rank_lt(a, c),
{
    if a.0 == b.0 && b.0 == c.0 && a.1.0 == b.1.0 && b.1.0 == c.1.0 && a.1.1 == b.1.1 && b.1.1 == c.1.1 {
        lemma_text_lt_transitive(a.1.2, b.1.2, c.1.2);
    }
}

fn rob_entry_rank(registry: &Registry, preferred: &Option<String>, e: &FileEntry) -> (r: (usize, (usize, usize, String)))
    ensures
        (r.0 as int, (r.1.0 as int, r.1.1 as int, r.1.2@)) == rob_rank(
            registry.root_path@,
            match preferred {
                Some(p) => Some(p@),
                None => None,
            },
            *e,
        ),
{
    let first = match preferred {
        Some(p) => {
            let stem: String = match crate::import::file_stem_of_path(e.path.as_str()) {
                Some(s) => s,
                None => String::new(),
            };
            let a = to_ascii_uppercase(stem.as_str());
            let b = to_ascii_uppercase(p.as_str());
            a.eq(&b)
        },
        None => false,
    };
    (if first { 0 } else { 1 }, registry.source_rank_key(e.path.as_str()))
}

/// The positions in the registry of its ROB files, in the order their
/// segments are searched for models: the ROB named `preferred_stem`
/// first, then by path rank (see `rob_rank`). Each ROB file appears once.
pub fn rob_search_order(registry: &Registry, preferred_stem: Option<&str>) -> (r: Vec<usize>)
    ensures
        forall|k: int| 0 <= k < r@.len() ==> #[trigger] r@[k] < registry.files@.len() && registry.files@[r@[k] as int].1.file_type
            == crate::import::FileType::Rob,
        forall|i: int|
            0 <= i < registry.files@.len() && #[trigger] registry.files@[i].1.file_type == crate::import::FileType::Rob
                ==> exists|k: int| 0 <= k < r@.len() && r@[k] == i,
        forall|a: int, b: int| 0 <= a < b < r@.len() ==> #[trigger] r@[a] != #[trigger] r@[b],
        ranks_ordered(
            r@.map_values(
                |i: usize|
                    rob_rank(
                        registry.root_path@,
                        match preferred_stem {
                            Some(p) => Some(p@),
                            None => None,
                        },
                        registry.files@[i as int].1,
                    ),
            ),
        ),
{
    let preferred: Option<String> = match preferred_stem {
        Some(p) => Some(p.to_owned()),
        None => None,
    };
    let ghost pref = match preferred_stem {
        Some(p) => Some(p@),
        None => None::<Seq<char>>,
    };
    let ghost root = registry.root_path@;
    let ghost files = registry.files@;
    let ghost rk = |i: usize| rob_rank(root, pref, files[i as int].1);
    let mut out: Vec<usize> = Vec::new();
    let mut keys: Vec<(usize, (usize, usize, String))> = Vec::new();
    let n: usize = registry.files.len();
    let mut i: usize = 0;
    while i < n
        invariant
            n == files.len(),
            files == registry.files@,
            root == registry.root_path@,
            pref == (match preferred_stem {
                Some(p) => Some(p@),
                None => None,
            }),
            pref == (match preferred {
                Some(p) => Some(p@),
                None => None,
            }),
            rk == (|i: usize| rob_rank(root, pref, files[i as int].1)),
            i <= n,
            out@.len() == keys@.len(),
            forall|k: int|
                0 <= k < out@.len() ==> #[trigger] out@[k] < i && files[out@[k] as int].1.file_type
                    == crate::import::FileType::Rob,
            forall|j: int| 0 <= j < i && #[trigger] files[j].1.file_type == crate::import::FileType::Rob ==> exists|k: int| 0 <= k < out@.len() && out@[k] == j,
            forall|a: int, b: int| 0 <= a < b < out@.len() ==> #[trigger] out@[a] != #[trigger] out@[b],
            forall|k: int|
                0 <= k < keys@.len() ==> (#[trigger] keys@[k].0 as int, (keys@[k].1.0 as int, keys@[k].1.1 as int, keys@[k].1.2@))
                    == rk(out@[k]),
            ranks_ordered(out@.map_values(rk)),
        decreases n - i,
    {
        let e = &registry.files[i].1;
        if e.file_type == crate::import::FileType::Rob {
            let key = rob_entry_rank(registry, &preferred, e);
            let ghost kv = rk(i);
            let mut p: usize = 0;
            while p < keys.len()
                invariant
                    p <= keys@.len(),
                    out@.len() == keys@.len(),
                    kv == (key.0 as int, (key.1.0 as int, key.1.1 as int, key.1.2@)),
                    forall|k: int|
                        0 <= k < keys@.len() ==> (#[trigger] keys@[k].0 as int, (keys@[k].1.0 as int, keys@[k].1.1 as int, keys@[k].1.2@))
                            == rk(out@[k]),
                    forall|q: int| 0 <= q < p ==> !model_rank_lt(kv, #[trigger] rk(out@[q])),
                ensures
                    p <= keys@.len(),
                    forall|q: int| 0 <= q < p ==> !model_rank_lt(kv, #[trigger] rk(out@[q])),
                    p < keys@.len() ==> model_rank_lt(kv, rk(out@[p as int])),
                decreases keys@.len() - p,
            {
                if entry_rank_less(&key, &keys[p]) {
                    break;
                }
                p += 1;
            }
            let ghost old_out = out@;
            out.insert(p, i);
            keys.insert(p, key);
            proof {
                lemma_insert_ordered(old_out.map_values(rk), p as int, kv);
                assert(out@.map_values(rk) =~= old_out.map_values(rk).insert(p as int, kv));
                lemma_insert_position(old_out, p as int, i);
                assert forall|k: int|
                    0 <= k < out@.len() implies #[trigger] out@[k] < i + 1 && files[out@[k] as int].1.file_type
                        == crate::import::FileType::Rob by {
                    if k > p {
                        assert(out@[k] == old_out[k - 1]);
                    } else if k < p {
                        assert(out@[k] == old_out[k]);
                    }
                }
                assert forall|j: int| 0 <= j < i + 1 && #[trigger] files[j].1.file_type == crate::import::FileType::Rob
                    implies exists|k: int| 0 <= k < out@.len() && out@[k] == j by {
                    if j == i {
                        assert(out@[p as int] == j);
                    } else {
                        let k0 = choose|k: int| 0 <= k < old_out.len() && old_out[k] == j;
                        if k0 < p {
                            assert(out@[k0] == j);
                        } else {
                            assert(out@[k0 + 1] == j);
                        }
                    }
                }
            }
        }
        i += 1;
    }
    assert(out@.map_values(rk) =~= out@.map_values(
        |i: usize|
            rob_rank(
                registry.root_path@,
                match preferred_stem {
                    Some(p) => Some(p@),
                    None => None,
                },
                registry.files@[i as int].1,
            ),
    ));
    out
}

/// Putting `kv` at `p`, after every priority it does not come before and
/// ahead of one it comes before, keeps priorities in order.
proof fn lemma_insert_ordered(ranks: Seq<(int, (int, int, Seq<char>))>, p: int, kv: (int, (int, int, Seq<char>)))
    requires
        ranks_ordered(ranks),
        0 <= p <= ranks.len(),
        forall|q: int| 0 <= q < p ==> !model_rank_lt(kv, #[trigger] ranks[q]),
        p < ranks.len() ==> model_rank_lt(kv, ranks[p]),
    ensures
        ranks_ordered(ranks.insert(p, kv)),
{
    let nr = ranks.insert(p, kv);
    assert forall|a: int, b: int| 0 <= a < b < nr.len() implies !#[trigger] model_rank_lt(nr[b], nr[a]) by {
        if a < p && b == p {
            assert(nr[a] == ranks[a]);
        } else if a == p && b > p {
            assert(nr[b] == ranks[b - 1]);
            if model_rank_lt(nr[b], kv) {
                lemma_model_rank_lt_transitive(nr[b], kv, ranks[p]);
                if b - 1 > p {
                    assert(!model_rank_lt(ranks[b - 1], ranks[p]));
                } else {
                    lemma_model_rank_lt_irreflexive(ranks[p]);
                }
            }
        } else if a < p && b < p {
            assert(nr[a] == ranks[a] && nr[b] == ranks[b]);
        } else if a < p && b > p {
            assert(nr[a] == ranks[a] && nr[b] == ranks[b - 1]);
        } else {
            assert(nr[a] == ranks[a - 1] && nr[b] == ranks[b - 1]);
        }
    }
}

/// Putting a position larger than all of `v`'s into it keeps its entries
/// apart.
proof fn lemma_insert_position(v: Seq<usize>, p: int, i: usize)
    requires
        0 <= p <= v.len(),
        forall|k: int| 0 <= k < v.len() ==> #[trigger] v[k] < i,
        forall|a: int, b: int| 0 <= a < b < v.len() ==> #[trigger] v[a] != #[trigger] v[b],
    ensures
        forall|a: int, b: int| 0 <= a < b < v.insert(p, i).len() ==> #[trigger] v.insert(p, i)[a] != #[trigger] v.insert(p, i)[b],
{
    let w = v.insert(p, i);
    assert forall|a: int, b: int| 0 <= a < b < w.len() implies #[trigger] w[a] != #[trigger] w[b] by {
        if a == p {
            assert(w[b] == v[b - 1]);
        } else if b == p {
            assert(w[a] == v[a]);
        } else if a < p && b < p {
            assert(w[a] == v[a] && w[b] == v[b]);
        } else if a < p {
            assert(w[a] == v[a] && w[b] == v[b - 1]);
        } else {
            assert(w[a] == v[a - 1] && w[b] == v[b - 1]);
        }
    }
}

} // verus!
