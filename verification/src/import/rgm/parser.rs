//! Decoding of the scene sections and their records.
use super::{MpobRecord, MprpRecord, MpsRecord, MpslRecord, RaexRecord, RavcRecord, RgmFile, RgmSection, RgmSectionHeader};
use crate::bytes::{read_i16_le, read_u16_le, read_u32_be, read_u32_le, spec_i16_of, spec_i32_of, spec_u16_le, spec_u32_be, spec_u32_le, tag_at};
use crate::text::{nul_trimmed_string, trim_nul, utf8_lossy};
use vstd::prelude::*;

verus! {

/// Unsigned 24-bit little-endian value at `p`.
pub open spec fn spec_u24(d: Seq<u8>, p: int) -> int {
    d[p] + d[p + 1] * 256 + d[p + 2] * 65536
}

/// Signed 24-bit little-endian value at `p`.
pub open spec fn spec_i24(d: Seq<u8>, p: int) -> int {
    let v = spec_u24(d, p);
    if v >= 0x80_0000 { v - 0x100_0000 } else { v }
}

/// Signed 8-bit value of a byte.
pub open spec fn spec_i8(b: u8) -> int {
    if b >= 128 { b - 256 } else { b as int }
}

/// Signed 16-bit field at `p`.
pub open spec fn spec_i16(d: Seq<u8>, p: int) -> i16 {
    spec_i16_of(spec_u16_le(d, p)) as i16
}

/// Signed 32-bit field at `p`.
pub open spec fn spec_i32(d: Seq<u8>, p: int) -> i32 {
    spec_i32_of(spec_u32_le(d, p)) as i32
}

pub(crate) fn read_u24(d: &[u8], p: usize) -> (r: u32)
    requires
        p + 3 <= d@.len(),
    ensures
        r == spec_u24(d@, p as int),
{
    (d[p] as u32) + (d[p + 1] as u32) * 256 + (d[p + 2] as u32) * 65536
}

pub(crate) fn read_i24(d: &[u8], p: usize) -> (r: i32)
    requires
        p + 3 <= d@.len(),
    ensures
        r == spec_i24(d@, p as int),
{
    let v = read_u24(d, p);
    if v >= 0x80_0000 {
        (v as i32) - 0x100_0000
    } else {
        v as i32
    }
}

fn read_i8(d: &[u8], p: usize) -> (r: i8)
    requires
        p < d@.len(),
    ensures
        r == spec_i8(d@[p as int]),
{
    let b = d[p];
    if b >= 128 {
        ((b as i16) - 256) as i8
    } else {
        b as i8
    }
}

fn read_i32(d: &[u8], p: usize) -> (r: i32)
    requires
        p + 4 <= d@.len(),
    ensures
        r == spec_i32(d@, p as int),
{
    crate::bytes::read_i32_le(d, p)
}

fn copy_array<const N: usize>(d: &[u8], p: usize) -> (a: [u8; N])
    requires
        p + N <= d@.len(),
    ensures
        a@ == d@.subrange(p as int, p + N),
{
    let n: usize = d.len();
    let mut a: [u8; N] = [0u8; N];
    let mut i: usize = 0;
    while i < N
        invariant
            p + N <= d@.len() == n,
            i <= N,
            a@.len() == N,
            forall|k: int| 0 <= k < i ==> a@[k] == d@[p + k],
        decreases N - i,
    {
        a[i] = d[p + i];
        i += 1;
    }
    assert(a@ =~= d@.subrange(p as int, p + N));
    a
}

/// `r` is the 66-byte `MPSO` record at `p`.
pub open spec fn mps_record_at(r: MpsRecord, d: Seq<u8>, p: int) -> bool {
    &&& r.id == spec_u32_le(d, p)
    &&& r.model_name@ == d.subrange(p + 4, p + 16)
    &&& r.pos_x == spec_i24(d, p + 16)
    &&& r.pos_y == spec_i24(d, p + 20)
    &&& r.pos_z == spec_u24(d, p + 24)
    &&& forall|k: int| 0 <= k < 9 ==> #[trigger] r.rotation_matrix@[k] == spec_i32(d, p + 28 + 4 * k)
    &&& r.trailing@ == d.subrange(p + 64, p + 66)
}

fn mps_record(d: &[u8], p: usize) -> (r: MpsRecord)
    requires
        p + 66 <= d@.len(),
    ensures
        mps_record_at(r, d@, p as int),
{
    let n: usize = d.len();
    let mut rotation_matrix = [0i32; 9];
    let mut k: usize = 0;
    while k < 9
        invariant
            p + 66 <= d@.len() == n,
            k <= 9,
            rotation_matrix@.len() == 9,
            forall|j: int| 0 <= j < k ==> #[trigger] rotation_matrix@[j] == spec_i32(d@, p + 28 + 4 * j),
        decreases 9 - k,
    {
        rotation_matrix[k] = read_i32(d, p + 28 + 4 * k);
        k += 1;
    }
    MpsRecord {
        id: read_u32_le(d, p),
        model_name: copy_array(d, p + 4),
        pos_x: read_i24(d, p + 16),
        pos_y: read_i24(d, p + 20),
        pos_z: read_u24(d, p + 24),
        rotation_matrix,
        trailing: copy_array(d, p + 64),
    }
}

/// `r` is the 66-byte `MPOB` record at `p`. The texture word at 50 holds the
/// texture id in its bits 7.. (0 when that does not fit a byte) and the
/// image id in its low 7 bits.
pub open spec fn mpob_record_at(r: MpobRecord, d: Seq<u8>, p: int) -> bool {
    let word = spec_u16_le(d, p + 50);
    &&& r.id == spec_u32_le(d, p)
    &&& r.object_type == d[p + 4]
    &&& r.is_active == d[p + 5]
    &&& r.script_name@ == d.subrange(p + 6, p + 15)
    &&& r.model_name@ == d.subrange(p + 15, p + 24)
    &&& r.is_static == d[p + 24]
    &&& r.unknown1 == spec_i16(d, p + 25)
    &&& r.pos_x == spec_i24(d, p + 27)
    &&& r.pad_x == d[p + 30]
    &&& r.pos_y == spec_i24(d, p + 31)
    &&& r.pad_y == d[p + 34]
    &&& r.pos_z == spec_u24(d, p + 35)
    &&& r.angle_x == spec_u32_le(d, p + 38)
    &&& r.angle_y == spec_u32_le(d, p + 42)
    &&& r.angle_z == spec_u32_le(d, p + 46)
    &&& r.texture_data_raw == spec_i16(d, p + 50)
    &&& r.texture_id == (if word / 128 <= 255 { word / 128 } else { 0 })
    &&& r.image_id == word % 128
    &&& r.intensity == spec_i16(d, p + 52)
    &&& r.radius == spec_i16(d, p + 54)
    &&& r.model_id == spec_i16(d, p + 56)
    &&& r.world_id == spec_i16(d, p + 58)
    &&& r.red == spec_i16(d, p + 60)
    &&& r.green == spec_i16(d, p + 62)
    &&& r.blue == spec_i16(d, p + 64)
}

fn mpob_record(d: &[u8], p: usize) -> (r: MpobRecord)
    requires
        p + 66 <= d@.len(),
    ensures
        mpob_record_at(r, d@, p as int),
{
    let _n: usize = d.len();
    let word: u16 = read_u16_le(d, p + 50);
    MpobRecord {
        id: read_u32_le(d, p),
        object_type: d[p + 4],
        is_active: d[p + 5],
        script_name: copy_array(d, p + 6),
        model_name: copy_array(d, p + 15),
        is_static: d[p + 24],
        unknown1: read_i16_le(d, p + 25),
        pos_x: read_i24(d, p + 27),
        pad_x: d[p + 30],
        pos_y: read_i24(d, p + 31),
        pad_y: d[p + 34],
        pos_z: read_u24(d, p + 35),
        angle_x: read_u32_le(d, p + 38),
        angle_y: read_u32_le(d, p + 42),
        angle_z: read_u32_le(d, p + 46),
        texture_data_raw: read_i16_le(d, p + 50),
        texture_id: if word / 128 <= 255 { (word / 128) as u8 } else { 0 },
        image_id: (word % 128) as u8,
        intensity: read_i16_le(d, p + 52),
        radius: read_i16_le(d, p + 54),
        model_id: read_i16_le(d, p + 56),
        world_id: read_i16_le(d, p + 58),
        red: read_i16_le(d, p + 60),
        green: read_i16_le(d, p + 62),
        blue: read_i16_le(d, p + 64),
    }
}

/// `r` is the 9-byte `RAVC` record at `p`.
pub open spec fn ravc_record_at(r: RavcRecord, d: Seq<u8>, p: int) -> bool {
    &&& r.offset_x == spec_i8(d[p])
    &&& r.offset_y == spec_i8(d[p + 1])
    &&& r.offset_z == spec_i8(d[p + 2])
    &&& r.vertex == spec_u16_le(d, p + 3)
    &&& r.radius == spec_u32_le(d, p + 5)
}

fn ravc_record(d: &[u8], p: usize) -> (r: RavcRecord)
    requires
        p + 9 <= d@.len(),
    ensures
        ravc_record_at(r, d@, p as int),
{
    let _n: usize = d.len();
    RavcRecord {
        offset_x: read_i8(d, p),
        offset_y: read_i8(d, p + 1),
        offset_z: read_i8(d, p + 2),
        vertex: read_u16_le(d, p + 3),
        radius: read_u32_le(d, p + 5),
    }
}

/// `r` is the 30-byte `RAEX` record at `p`: fifteen signed 16-bit fields.
pub open spec fn raex_record_at(r: RaexRecord, d: Seq<u8>, p: int) -> bool {
    &&& r.grip0 == spec_i16(d, p)
    &&& r.grip1 == spec_i16(d, p + 2)
    &&& r.scabbard0 == spec_i16(d, p + 4)
    &&& r.scabbard1 == spec_i16(d, p + 6)
    &&& r.unknown_08 == spec_i16(d, p + 8)
    &&& r.texture_id == spec_i16(d, p + 10)
    &&& r.v_vertex == spec_i16(d, p + 12)
    &&& r.v_size == spec_i16(d, p + 14)
    &&& r.taunt_id == spec_i16(d, p + 16)
    &&& r.unknown_12 == spec_i16(d, p + 18)
    &&& r.unknown_14 == spec_i16(d, p + 20)
    &&& r.unknown_16 == spec_i16(d, p + 22)
    &&& r.range_min == spec_i16(d, p + 24)
    &&& r.range_ideal == spec_i16(d, p + 26)
    &&& r.range_max == spec_i16(d, p + 28)
}

fn raex_record(d: &[u8], p: usize) -> (r: RaexRecord)
    requires
        p + 30 <= d@.len(),
    ensures
        raex_record_at(r, d@, p as int),
{
    let _n: usize = d.len();
    RaexRecord {
        grip0: read_i16_le(d, p),
        grip1: read_i16_le(d, p + 2),
        scabbard0: read_i16_le(d, p + 4),
        scabbard1: read_i16_le(d, p + 6),
        unknown_08: read_i16_le(d, p + 8),
        texture_id: read_i16_le(d, p + 10),
        v_vertex: read_i16_le(d, p + 12),
        v_size: read_i16_le(d, p + 14),
        taunt_id: read_i16_le(d, p + 16),
        unknown_12: read_i16_le(d, p + 18),
        unknown_14: read_i16_le(d, p + 20),
        unknown_16: read_i16_le(d, p + 22),
        range_min: read_i16_le(d, p + 24),
        range_ideal: read_i16_le(d, p + 26),
        range_max: read_i16_le(d, p + 28),
    }
}

/// `r` is the 80-byte `MPRP` record at `p`.
pub open spec fn mprp_record_at(r: MprpRecord, d: Seq<u8>, p: int) -> bool {
    &&& r.id == spec_u32_le(d, p)
    &&& r.unknown0 == d[p + 4]
    &&& r.pos_x == spec_i24(d, p + 5)
    &&& r.pad_x == d[p + 8]
    &&& r.pos_y == spec_i24(d, p + 9)
    &&& r.pad_y == d[p + 12]
    &&& r.pos_z == spec_u24(d, p + 13)
    &&& r.angle_y == spec_i32(d, p + 16)
    &&& r.rope_type == spec_i32(d, p + 20)
    &&& r.swing == spec_i32(d, p + 24)
    &&& r.speed == spec_i32(d, p + 28)
    &&& r.length == spec_i16(d, p + 32)
    &&& r.static_model@ == utf8_lossy(trim_nul(d.subrange(p + 34, p + 43)))
    &&& r.rope_model@ == utf8_lossy(trim_nul(d.subrange(p + 43, p + 52)))
    &&& forall|k: int| 0 <= k < 7 ==> #[trigger] r.unknown1@[k] == spec_i32(d, p + 52 + 4 * k)
}

pub(crate) fn mprp_record(d: &[u8], p: usize) -> (r: MprpRecord)
    requires
        p + 80 <= d@.len(),
    ensures
        mprp_record_at(r, d@, p as int),
{
    let n: usize = d.len();
    let mut unknown1 = [0i32; 7];
    let mut k: usize = 0;
    while k < 7
        invariant
            p + 80 <= d@.len() == n,
            k <= 7,
            unknown1@.len() == 7,
            forall|j: int| 0 <= j < k ==> #[trigger] unknown1@[j] == spec_i32(d@, p + 52 + 4 * j),
        decreases 7 - k,
    {
        unknown1[k] = read_i32(d, p + 52 + 4 * k);
        k += 1;
    }
    MprpRecord {
        id: read_u32_le(d, p),
        unknown0: d[p + 4],
        pos_x: read_i24(d, p + 5),
        pad_x: d[p + 8],
        pos_y: read_i24(d, p + 9),
        pad_y: d[p + 12],
        pos_z: read_u24(d, p + 13),
        angle_y: read_i32(d, p + 16),
        rope_type: read_i32(d, p + 20),
        swing: read_i32(d, p + 24),
        speed: read_i32(d, p + 28),
        length: read_i16_le(d, p + 32),
        static_model: nul_trimmed_string(vstd::slice::slice_subrange(d, p + 34, p + 43)),
        rope_model: nul_trimmed_string(vstd::slice::slice_subrange(d, p + 43, p + 52)),
        unknown1,
    }
}

/// `r` is the 42-byte `MPSL` record at `p`.
pub open spec fn mpsl_record_at(r: MpslRecord, d: Seq<u8>, p: int) -> bool {
    &&& r.color_r == d[p]
    &&& r.color_g == d[p + 1]
    &&& r.color_b == d[p + 2]
    &&& r.color_flags == d[p + 3]
    &&& r.unknown0 == spec_u32_le(d, p + 4)
    &&& r.pos_x == spec_i24(d, p + 8)
    &&& r.pos_y == spec_i24(d, p + 12)
    &&& r.pos_z == spec_u24(d, p + 16)
    &&& r.param0 == spec_i16(d, p + 20)
    &&& r.param1 == spec_i16(d, p + 22)
    &&& r.unknown1@ == d.subrange(p + 24, p + 42)
}

fn mpsl_record(d: &[u8], p: usize) -> (r: MpslRecord)
    requires
        p + 42 <= d@.len(),
    ensures
        mpsl_record_at(r, d@, p as int),
{
    let _n: usize = d.len();
    MpslRecord {
        color_r: d[p],
        color_g: d[p + 1],
        color_b: d[p + 2],
        color_flags: d[p + 3],
        unknown0: read_u32_le(d, p + 4),
        pos_x: read_i24(d, p + 8),
        pos_y: read_i24(d, p + 12),
        pos_z: read_u24(d, p + 16),
        param0: read_i16_le(d, p + 20),
        param1: read_i16_le(d, p + 22),
        unknown1: copy_array(d, p + 24),
    }
}

} // verus!

verus! {

/// A payload holds a 32-bit record count and at least that many `size`-byte records.
pub open spec fn counted_records_fit(d: Seq<u8>, size: int) -> bool {
    d.len() >= 4 && spec_u32_le(d, 0) * size <= d.len() - 4
}

/// A payload holds a 32-bit record count and exactly that many `size`-byte records.
pub open spec fn counted_records_exact(d: Seq<u8>, size: int) -> bool {
    d.len() >= 4 && spec_u32_le(d, 0) * size == d.len() - 4
}

fn counted_fit(d: &[u8], size: usize) -> (r: Option<usize>)
    requires
        0 < size <= 100,
    ensures
        r is Some <==> counted_records_fit(d@, size as int),
        r matches Some(c) ==> c == spec_u32_le(d@, 0) && 4 + c * size <= d@.len() <= usize::MAX,
{
    let n: usize = d.len();
    if n < 4 {
        return None;
    }
    let count: u32 = read_u32_le(d, 0);
    assert((count as u64) * (size as u64) <= 0xFFFF_FFFF * 100) by (nonlinear_arith)
        requires
            size <= 100,
    ;
    if (count as u64) * (size as u64) > (n - 4) as u64 {
        return None;
    }
    Some(count as usize)
}

/// Decodes the `MPSO` records of a payload.
fn mps_section_data(d: &[u8]) -> (r: Option<Vec<MpsRecord>>)
    ensures
        r is Some <==> counted_records_fit(d@, 66),
        r matches Some(v) ==> v@.len() == spec_u32_le(d@, 0) && forall|i: int|
            0 <= i < v@.len() ==> mps_record_at(#[trigger] v@[i], d@, 4 + 66 * i),
{
    let count = counted_fit(d, 66)?;
    let mut v: Vec<MpsRecord> = Vec::new();
    let mut i: usize = 0;
    while i < count
        invariant
            4 + count * 66 <= d@.len() <= usize::MAX,
            i <= count,
            v@.len() == i,
            forall|j: int| 0 <= j < i ==> mps_record_at(#[trigger] v@[j], d@, 4 + 66 * j),
        decreases count - i,
    {
        assert(4 + 66 * i + 66 <= 4 + count * 66) by (nonlinear_arith)
            requires
                i < count,
        ;
        v.push(mps_record(d, 4 + 66 * i));
        i += 1;
    }
    Some(v)
}

/// Decodes the `MPOB` records of a payload.
fn mpob_section_data(d: &[u8]) -> (r: Option<Vec<MpobRecord>>)
    ensures
        r is Some <==> counted_records_fit(d@, 66),
        r matches Some(v) ==> v@.len() == spec_u32_le(d@, 0) && forall|i: int|
            0 <= i < v@.len() ==> mpob_record_at(#[trigger] v@[i], d@, 4 + 66 * i),
{
    let count = counted_fit(d, 66)?;
    let mut v: Vec<MpobRecord> = Vec::new();
    let mut i: usize = 0;
    while i < count
        invariant
            4 + count * 66 <= d@.len() <= usize::MAX,
            i <= count,
            v@.len() == i,
            forall|j: int| 0 <= j < i ==> mpob_record_at(#[trigger] v@[j], d@, 4 + 66 * j),
        decreases count - i,
    {
        assert(4 + 66 * i + 66 <= 4 + count * 66) by (nonlinear_arith)
            requires
                i < count,
        ;
        v.push(mpob_record(d, 4 + 66 * i));
        i += 1;
    }
    Some(v)
}

/// Decodes the `MPRP` records of a payload that they fill exactly.
fn mprp_section_data(d: &[u8]) -> (r: Option<Vec<MprpRecord>>)
    ensures
        r is Some <==> counted_records_exact(d@, 80),
        r matches Some(v) ==> v@.len() == spec_u32_le(d@, 0) && forall|i: int|
            0 <= i < v@.len() ==> mprp_record_at(#[trigger] v@[i], d@, 4 + 80 * i),
{
    let count = counted_fit(d, 80)?;
    if count * 80 != d.len() - 4 {
        return None;
    }
    let mut v: Vec<MprpRecord> = Vec::new();
    let mut i: usize = 0;
    while i < count
        invariant
            4 + count * 80 <= d@.len() <= usize::MAX,
            i <= count,
            v@.len() == i,
            forall|j: int| 0 <= j < i ==> mprp_record_at(#[trigger] v@[j], d@, 4 + 80 * j),
        decreases count - i,
    {
        assert(4 + 80 * i + 80 <= 4 + count * 80) by (nonlinear_arith)
            requires
                i < count,
        ;
        v.push(mprp_record(d, 4 + 80 * i));
        i += 1;
    }
    Some(v)
}

/// Decodes the `MPSL` records of a payload that they fill exactly.
fn mpsl_section_data(d: &[u8]) -> (r: Option<Vec<MpslRecord>>)
    ensures
        r is Some <==> counted_records_exact(d@, 42),
        r matches Some(v) ==> v@.len() == spec_u32_le(d@, 0) && forall|i: int|
            0 <= i < v@.len() ==> mpsl_record_at(#[trigger] v@[i], d@, 4 + 42 * i),
{
    let count = counted_fit(d, 42)?;
    if count * 42 != d.len() - 4 {
        return None;
    }
    let mut v: Vec<MpslRecord> = Vec::new();
    let mut i: usize = 0;
    while i < count
        invariant
            4 + count * 42 <= d@.len() <= usize::MAX,
            i <= count,
            v@.len() == i,
            forall|j: int| 0 <= j < i ==> mpsl_record_at(#[trigger] v@[j], d@, 4 + 42 * j),
        decreases count - i,
    {
        assert(4 + 42 * i + 42 <= 4 + count * 42) by (nonlinear_arith)
            requires
                i < count,
        ;
        v.push(mpsl_record(d, 4 + 42 * i));
        i += 1;
    }
    Some(v)
}

/// Decodes the `RAEX` records of a payload that they fill exactly.
fn raex_section_data(d: &[u8]) -> (r: Option<Vec<RaexRecord>>)
    ensures
        r is Some <==> d@.len() % 30 == 0,
        r matches Some(v) ==> v@.len() == d@.len() / 30 && forall|i: int|
            0 <= i < v@.len() ==> raex_record_at(#[trigger] v@[i], d@, 30 * i),
{
    let n: usize = d.len();
    if n % 30 != 0 {
        return None;
    }
    let count: usize = n / 30;
    let mut v: Vec<RaexRecord> = Vec::new();
    let mut i: usize = 0;
    while i < count
        invariant
            n == d@.len(),
            count == n / 30,
            n % 30 == 0,
            i <= count,
            v@.len() == i,
            forall|j: int| 0 <= j < i ==> raex_record_at(#[trigger] v@[j], d@, 30 * j),
        decreases count - i,
    {
        v.push(raex_record(d, 30 * i));
        i += 1;
    }
    Some(v)
}

/// Decodes the `RAVC` records of a payload that they fill exactly.
fn ravc_section_data(d: &[u8]) -> (r: Option<Vec<RavcRecord>>)
    ensures
        r is Some <==> d@.len() % 9 == 0,
        r matches Some(v) ==> v@.len() == d@.len() / 9 && forall|i: int|
            0 <= i < v@.len() ==> ravc_record_at(#[trigger] v@[i], d@, 9 * i),
{
    let n: usize = d.len();
    if n % 9 != 0 {
        return None;
    }
    let count: usize = n / 9;
    let mut v: Vec<RavcRecord> = Vec::new();
    let mut i: usize = 0;
    while i < count
        invariant
            n == d@.len(),
            count == n / 9,
            n % 9 == 0,
            i <= count,
            v@.len() == i,
            forall|j: int| 0 <= j < i ==> ravc_record_at(#[trigger] v@[j], d@, 9 * j),
        decreases count - i,
    {
        v.push(ravc_record(d, 9 * i));
        i += 1;
    }
    Some(v)
}

} // verus!

verus! {

/// The four ASCII characters `a b c e` as a tag.
pub open spec fn t4(a: char, b: char, c: char, e: char) -> Seq<u8> {
    seq![a as u8, b as u8, c as u8, e as u8]
}

/// `h` is the header of a section tagged `tag` with payload length `dl`.
pub open spec fn header_is(h: RgmSectionHeader, tag: Seq<u8>, dl: int) -> bool {
    h.name@ == tag && h.data_length == dl && h.record_count is None
}

/// `s` holds the raw payload `pl` under header `tag`/`dl`, in the variant
/// that `tag` selects; unknown tags are kept as `Rahd`.
pub open spec fn raw_section_is(s: RgmSection, tag: Seq<u8>, dl: int, pl: Seq<u8>) -> bool {
    if tag == t4('R', 'A', 'F', 'S') {
        s matches RgmSection::Rafs(h, v) && header_is(h, tag, dl) && v@ == pl
    } else if tag == t4('R', 'A', 'S', 'T') {
        s matches RgmSection::Rast(h, v) && header_is(h, tag, dl) && v@ == pl
    } else if tag == t4('R', 'A', 'S', 'B') {
        s matches RgmSection::Rasb(h, v) && header_is(h, tag, dl) && v@ == pl
    } else if tag == t4('R', 'A', 'V', 'A') {
        s matches RgmSection::Rava(h, v) && header_is(h, tag, dl) && v@ == pl
    } else if tag == t4('R', 'A', 'S', 'C') {
        s matches RgmSection::Rasc(h, v) && header_is(h, tag, dl) && v@ == pl
    } else if tag == t4('R', 'A', 'H', 'K') {
        s matches RgmSection::Rahk(h, v) && header_is(h, tag, dl) && v@ == pl
    } else if tag == t4('R', 'A', 'L', 'C') {
        s matches RgmSection::Ralc(h, v) && header_is(h, tag, dl) && v@ == pl
    } else if tag == t4('R', 'A', 'A', 'T') {
        s matches RgmSection::Raat(h, v) && header_is(h, tag, dl) && v@ == pl
    } else if tag == t4('R', 'A', 'A', 'N') {
        s matches RgmSection::Raan(h, v) && header_is(h, tag, dl) && v@ == pl
    } else if tag == t4('R', 'A', 'G', 'R') {
        s matches RgmSection::Ragr(h, v) && header_is(h, tag, dl) && v@ == pl
    } else if tag == t4('R', 'A', 'N', 'M') {
        s matches RgmSection::Ranm(h, v) && header_is(h, tag, dl) && v@ == pl
    } else if tag == t4('M', 'P', 'F', ' ') || tag == t4('M', 'P', 'S', 'F') {
        s matches RgmSection::Mpf(h, v) && header_is(h, tag, dl) && v@ == pl
    } else if tag == t4('M', 'P', 'M', ' ') || tag == t4('M', 'P', 'M', 'K') {
        s matches RgmSection::Mpm(h, v) && header_is(h, tag, dl) && v@ == pl
    } else if tag == t4('M', 'P', 'S', 'Z') {
        s matches RgmSection::Mpsz(h, v) && header_is(h, tag, dl) && v@ == pl
    } else if tag == t4('W', 'D', 'N', 'M') {
        s matches RgmSection::Wdnm(h, v) && header_is(h, tag, dl) && v@ == pl
    } else if tag == t4('F', 'L', 'A', 'T') {
        s matches RgmSection::Flat(h, v) && header_is(h, tag, dl) && v@ == pl
    } else {
        s matches RgmSection::Rahd(h, v) && header_is(h, tag, dl) && v@ == pl
    }
}

/// The tags whose records are decoded.
pub open spec fn is_typed_tag(tag: Seq<u8>) -> bool {
    ||| tag == t4('R', 'A', 'E', 'X')
    ||| tag == t4('R', 'A', 'V', 'C')
    ||| tag == t4('M', 'P', 'O', 'B')
    ||| tag == t4('M', 'P', 'R', 'P')
    ||| tag == t4('M', 'P', 'S', 'O')
    ||| tag == t4('M', 'P', 'L', ' ')
    ||| tag == t4('M', 'P', 'S', 'L')
}

/// `s` is the section tagged `tag` with payload `pl`. Records are decoded
/// when they fit: `RAEX`/`RAVC` payloads must be whole records, `MPRP` and
/// `MPSL` counted records must fill the payload, `MPOB` and `MPSO` counted
/// records must fit in it; otherwise the payload is kept raw (an `MPSO`
/// section then has no records).
pub open spec fn section_is(s: RgmSection, tag: Seq<u8>, dl: int, pl: Seq<u8>) -> bool {
    if tag == t4('R', 'A', 'E', 'X') {
        if pl.len() % 30 == 0 {
            s matches RgmSection::RaexParsed(h, v) && header_is(h, tag, dl) && v@.len() == pl.len() / 30
                && forall|i: int| 0 <= i < v@.len() ==> raex_record_at(#[trigger] v@[i], pl, 30 * i)
        } else {
            s matches RgmSection::Raex(h, v) && header_is(h, tag, dl) && v@ == pl
        }
    } else if tag == t4('R', 'A', 'V', 'C') {
        if pl.len() % 9 == 0 {
            s matches RgmSection::RavcParsed(h, v) && header_is(h, tag, dl) && v@.len() == pl.len() / 9
                && forall|i: int| 0 <= i < v@.len() ==> ravc_record_at(#[trigger] v@[i], pl, 9 * i)
        } else {
            s matches RgmSection::Ravc(h, v) && header_is(h, tag, dl) && v@ == pl
        }
    } else if tag == t4('M', 'P', 'O', 'B') {
        if counted_records_fit(pl, 66) {
            s matches RgmSection::MpobParsed(h, v) && header_is(h, tag, dl) && v@.len() == spec_u32_le(pl, 0)
                && forall|i: int| 0 <= i < v@.len() ==> mpob_record_at(#[trigger] v@[i], pl, 4 + 66 * i)
        } else {
            s matches RgmSection::Mpob(h, v) && header_is(h, tag, dl) && v@ == pl
        }
    } else if tag == t4('M', 'P', 'R', 'P') {
        if counted_records_exact(pl, 80) {
            s matches RgmSection::MprpParsed(h, v) && header_is(h, tag, dl) && v@.len() == spec_u32_le(pl, 0)
                && forall|i: int| 0 <= i < v@.len() ==> mprp_record_at(#[trigger] v@[i], pl, 4 + 80 * i)
        } else {
            s matches RgmSection::Mprp(h, v) && header_is(h, tag, dl) && v@ == pl
        }
    } else if tag == t4('M', 'P', 'S', 'O') {
        s matches RgmSection::Mps(h, v) && header_is(h, tag, dl) && if counted_records_fit(pl, 66) {
            v@.len() == spec_u32_le(pl, 0) && forall|i: int|
                0 <= i < v@.len() ==> mps_record_at(#[trigger] v@[i], pl, 4 + 66 * i)
        } else {
            v@.len() == 0
        }
    } else if tag == t4('M', 'P', 'L', ' ') || tag == t4('M', 'P', 'S', 'L') {
        if counted_records_exact(pl, 42) {
            s matches RgmSection::MplParsed(h, v) && header_is(h, tag, dl) && v@.len() == spec_u32_le(pl, 0)
                && forall|i: int| 0 <= i < v@.len() ==> mpsl_record_at(#[trigger] v@[i], pl, 4 + 42 * i)
        } else {
            s matches RgmSection::Mpl(h, v) && header_is(h, tag, dl) && v@ == pl
        }
    } else {
        raw_section_is(s, tag, dl, pl)
    }
}

fn tag_eq(t: &[u8; 4], a: u8, b: u8, c: u8, e: u8) -> (r: bool)
    ensures
        r == (t@ == seq![a, b, c, e]),
{
    let r = t[0] == a && t[1] == b && t[2] == c && t[3] == e;
    assert(r ==> t@ =~= seq![a, b, c, e]);
    assert(t@ == seq![a, b, c, e] ==> t@[0] == a && t@[1] == b && t@[2] == c && t@[3] == e);
    r
}

fn raw_section(h: RgmSectionHeader, pl: &[u8]) -> (s: RgmSection)
    requires
        h.record_count is None,
    ensures
        raw_section_is(s, h.name@, h.data_length as int, pl@),
{
    let t = h.name;
    let v = crate::bytes::copy_range(pl, 0, pl.len());
    assert(pl@.subrange(0, pl@.len() as int) =~= pl@);
    if tag_eq(&t, 0x52, 0x41, 0x46, 0x53) {
        RgmSection::Rafs(h, v)
    } else if tag_eq(&t, 0x52, 0x41, 0x53, 0x54) {
        RgmSection::Rast(h, v)
    } else if tag_eq(&t, 0x52, 0x41, 0x53, 0x42) {
        RgmSection::Rasb(h, v)
    } else if tag_eq(&t, 0x52, 0x41, 0x56, 0x41) {
        RgmSection::Rava(h, v)
    } else if tag_eq(&t, 0x52, 0x41, 0x53, 0x43) {
        RgmSection::Rasc(h, v)
    } else if tag_eq(&t, 0x52, 0x41, 0x48, 0x4B) {
        RgmSection::Rahk(h, v)
    } else if tag_eq(&t, 0x52, 0x41, 0x4C, 0x43) {
        RgmSection::Ralc(h, v)
    } else if tag_eq(&t, 0x52, 0x41, 0x41, 0x54) {
        RgmSection::Raat(h, v)
    } else if tag_eq(&t, 0x52, 0x41, 0x41, 0x4E) {
        RgmSection::Raan(h, v)
    } else if tag_eq(&t, 0x52, 0x41, 0x47, 0x52) {
        RgmSection::Ragr(h, v)
    } else if tag_eq(&t, 0x52, 0x41, 0x4E, 0x4D) {
        RgmSection::Ranm(h, v)
    } else if tag_eq(&t, 0x4D, 0x50, 0x46, 0x20) || tag_eq(&t, 0x4D, 0x50, 0x53, 0x46) {
        RgmSection::Mpf(h, v)
    } else if tag_eq(&t, 0x4D, 0x50, 0x4D, 0x20) || tag_eq(&t, 0x4D, 0x50, 0x4D, 0x4B) {
        RgmSection::Mpm(h, v)
    } else if tag_eq(&t, 0x4D, 0x50, 0x53, 0x5A) {
        RgmSection::Mpsz(h, v)
    } else if tag_eq(&t, 0x57, 0x44, 0x4E, 0x4D) {
        RgmSection::Wdnm(h, v)
    } else if tag_eq(&t, 0x46, 0x4C, 0x41, 0x54) {
        RgmSection::Flat(h, v)
    } else {
        RgmSection::Rahd(h, v)
    }
}

/// Builds the section for header `h` and payload `pl`.
fn section_data(h: RgmSectionHeader, pl: &[u8]) -> (s: RgmSection)
    requires
        h.record_count is None,
    ensures
        section_is(s, h.name@, h.data_length as int, pl@),
{
    let t = h.name;
    assert(pl@.subrange(0, pl@.len() as int) =~= pl@);
    if tag_eq(&t, 0x52, 0x41, 0x45, 0x58) {
        match raex_section_data(pl) {
            Some(v) => RgmSection::RaexParsed(h, v),
            None => RgmSection::Raex(h, crate::bytes::copy_range(pl, 0, pl.len())),
        }
    } else if tag_eq(&t, 0x52, 0x41, 0x56, 0x43) {
        match ravc_section_data(pl) {
            Some(v) => RgmSection::RavcParsed(h, v),
            None => RgmSection::Ravc(h, crate::bytes::copy_range(pl, 0, pl.len())),
        }
    } else if tag_eq(&t, 0x4D, 0x50, 0x4F, 0x42) {
        match mpob_section_data(pl) {
            Some(v) => RgmSection::MpobParsed(h, v),
            None => RgmSection::Mpob(h, crate::bytes::copy_range(pl, 0, pl.len())),
        }
    } else if tag_eq(&t, 0x4D, 0x50, 0x52, 0x50) {
        match mprp_section_data(pl) {
            Some(v) => RgmSection::MprpParsed(h, v),
            None => RgmSection::Mprp(h, crate::bytes::copy_range(pl, 0, pl.len())),
        }
    } else if tag_eq(&t, 0x4D, 0x50, 0x53, 0x4F) {
        match mps_section_data(pl) {
            Some(v) => RgmSection::Mps(h, v),
            None => RgmSection::Mps(h, Vec::new()),
        }
    } else if tag_eq(&t, 0x4D, 0x50, 0x4C, 0x20) || tag_eq(&t, 0x4D, 0x50, 0x53, 0x4C) {
        match mpsl_section_data(pl) {
            Some(v) => RgmSection::MplParsed(h, v),
            None => RgmSection::Mpl(h, crate::bytes::copy_range(pl, 0, pl.len())),
        }
    } else {
        raw_section(h, pl)
    }
}

} // verus!

verus! {

/// Header positions of the sections read from `pos` on: reading stops
/// after an `END ` section, before fewer than 8 bytes, or before a section
/// whose payload does not fit.
pub open spec fn rgm_positions(d: Seq<u8>, pos: int) -> Seq<int>
    decreases d.len() - pos,
{
    if pos < 0 || d.len() - pos < 8 {
        Seq::empty()
    } else if d.subrange(pos, pos + 4) == t4('E', 'N', 'D', ' ') {
        seq![pos]
    } else if d.len() - (pos + 8) < spec_u32_be(d, pos + 4) {
        Seq::empty()
    } else {
        seq![pos] + rgm_positions(d, pos + 8 + spec_u32_be(d, pos + 4))
    }
}

/// Where reading the sections from `pos` on stops.
pub open spec fn rgm_rest(d: Seq<u8>, pos: int) -> int
    decreases d.len() - pos,
{
    if pos < 0 || d.len() - pos < 8 {
        pos
    } else if d.subrange(pos, pos + 4) == t4('E', 'N', 'D', ' ') {
        pos + 8
    } else if d.len() - (pos + 8) < spec_u32_be(d, pos + 4) {
        pos
    } else {
        rgm_rest(d, pos + 8 + spec_u32_be(d, pos + 4))
    }
}

/// `s` is the section whose header is at `p`.
pub open spec fn rgm_section_at(s: RgmSection, d: Seq<u8>, p: int) -> bool {
    let tag = d.subrange(p, p + 4);
    let dl = spec_u32_be(d, p + 4);
    if tag == t4('E', 'N', 'D', ' ') {
        s matches RgmSection::End(h) && header_is(h, tag, dl)
    } else {
        section_is(s, tag, dl, d.subrange(p + 8, p + 8 + dl))
    }
}

/// `f` holds the sections of `d`.
pub open spec fn rgm_matches(f: RgmFile, d: Seq<u8>) -> bool {
    let ps = rgm_positions(d, 0);
    &&& f.sections@.len() == ps.len()
    &&& forall|i: int| 0 <= i < ps.len() ==> rgm_section_at(#[trigger] f.sections@[i], d, ps[i])
}

fn read_name4(d: &[u8], p: usize) -> (t: [u8; 4])
    requires
        p + 4 <= d@.len(),
    ensures
        t@ == d@.subrange(p as int, p + 4),
{
    let t = [d[p], d[p + 1], d[p + 2], d[p + 3]];
    assert(t@ =~= d@.subrange(p as int, p + 4));
    t
}

/// Parses the sections of a scene file; never fails, and returns the bytes
/// after the last section read.
pub fn parse_rgm_file(input: &[u8]) -> (r: Result<(&[u8], RgmFile), crate::error::Error>)
    ensures
        r matches Ok(t) && rgm_matches(t.1, input@) && t.0@ == input@.subrange(
            rgm_rest(input@, 0),
            input@.len() as int,
        ),
{
    let n: usize = input.len();
    let mut sections: Vec<RgmSection> = Vec::new();
    let mut pos: usize = 0;
    let ghost mut ps: Seq<int> = Seq::empty();
    loop
        invariant
            n == input@.len(),
            pos <= n,
            rgm_positions(input@, 0) == ps + rgm_positions(input@, pos as int),
            rgm_rest(input@, 0) == rgm_rest(input@, pos as int),
            sections@.len() == ps.len(),
            forall|i: int| 0 <= i < ps.len() ==> rgm_section_at(#[trigger] sections@[i], input@, ps[i]),
        decreases n - pos,
    {
        if n - pos < 8 {
            assert(ps + Seq::<int>::empty() =~= ps);
            return Ok((vstd::slice::slice_subrange(input, pos, n), RgmFile { sections }));
        }
        let name = read_name4(input, pos);
        let data_length = read_u32_be(input, pos + 4);
        let header = RgmSectionHeader { name, data_length, record_count: None };
        if tag_at(input, pos, 0x45, 0x4E, 0x44, 0x20) {
            sections.push(RgmSection::End(header));
            proof {
                assert(rgm_section_at(sections@[ps.len() as int], input@, pos as int));
                ps = ps.push(pos as int);
            }
            return Ok((vstd::slice::slice_subrange(input, pos + 8, n), RgmFile { sections }));
        }
        if n - (pos + 8) < data_length as usize {
            assert(ps + Seq::<int>::empty() =~= ps);
            return Ok((vstd::slice::slice_subrange(input, pos, n), RgmFile { sections }));
        }
        let end: usize = pos + 8 + data_length as usize;
        let section = section_data(header, vstd::slice::slice_subrange(input, pos + 8, end));
        sections.push(section);
        proof {
            assert(rgm_section_at(sections@[ps.len() as int], input@, pos as int));
            assert(ps.push(pos as int) + rgm_positions(input@, end as int) =~= ps + rgm_positions(
                input@,
                pos as int,
            ));
            ps = ps.push(pos as int);
        }
        pos = end;
    }
}

} // verus!

verus! {

/// Where an `MPSO` record puts its fields: the id is the little-endian
/// 32-bit number at offset 0; the x coordinate is the signed 24-bit
/// little-endian number at record offset 16, the y coordinate the one at
/// offset 20, and the z coordinate the unsigned one at offset 24; rotation
/// entry `k` is the signed 32-bit number at offset `28 + 4 * k`.
pub proof fn law_mps_position_layout(r: MpsRecord, d: Seq<u8>, p: int)
    requires
        0 <= p,
        p + 66 <= d.len(),
        mps_record_at(r, d, p),
    ensures
        r.id == d[p] + 256 * d[p + 1] + 65536 * d[p + 2] + 16777216 * d[p + 3],
        r.pos_x == crate::bytes::le3_signed(d[p + 16], d[p + 17], d[p + 18]),
        r.pos_y == crate::bytes::le3_signed(d[p + 20], d[p + 21], d[p + 22]),
        r.pos_z == d[p + 24] + 256 * d[p + 25] + 65536 * d[p + 26],
        forall|k: int|
            0 <= k < 9 ==> #[trigger] r.rotation_matrix@[k] == crate::bytes::le4_signed(
                d[p + 28 + 4 * k],
                d[p + 29 + 4 * k],
                d[p + 30 + 4 * k],
                d[p + 31 + 4 * k],
            ),
{
    assert forall|k: int| 0 <= k < 9 implies #[trigger] r.rotation_matrix@[k] == crate::bytes::le4_signed(
        d[p + 28 + 4 * k],
        d[p + 29 + 4 * k],
        d[p + 30 + 4 * k],
        d[p + 31 + 4 * k],
    ) by {
        assert(r.rotation_matrix@[k] == spec_i32(d, p + 28 + 4 * k));
    }
}

/// Where an `MPOB` record puts its position and angles: x, y as signed
/// 24-bit little-endian numbers at offsets 27 and 31, z unsigned at 35,
/// and the x, y, z angles as little-endian 32-bit numbers at 38, 42, 46.
pub proof fn law_mpob_position_layout(r: MpobRecord, d: Seq<u8>, p: int)
    requires
        0 <= p,
        p + 66 <= d.len(),
        mpob_record_at(r, d, p),
    ensures
        r.pos_x == crate::bytes::le3_signed(d[p + 27], d[p + 28], d[p + 29]),
        r.pos_y == crate::bytes::le3_signed(d[p + 31], d[p + 32], d[p + 33]),
        r.pos_z == d[p + 35] + 256 * d[p + 36] + 65536 * d[p + 37],
        r.angle_x == d[p + 38] + 256 * d[p + 39] + 65536 * d[p + 40] + 16777216 * d[p + 41],
        r.angle_y == d[p + 42] + 256 * d[p + 43] + 65536 * d[p + 44] + 16777216 * d[p + 45],
        r.angle_z == d[p + 46] + 256 * d[p + 47] + 65536 * d[p + 48] + 16777216 * d[p + 49],
{
}

/// Where an `MPSL` light record puts its fields: red, green and blue are
/// bytes 0, 1, 2; x, y as signed 24-bit little-endian numbers at offsets 8
/// and 12, z unsigned at 16; the two range parameters signed 16-bit at 20
/// and 22.
pub proof fn law_mpsl_layout(r: MpslRecord, d: Seq<u8>, p: int)
    requires
        0 <= p,
        p + 42 <= d.len(),
        mpsl_record_at(r, d, p),
    ensures
        r.color_r == d[p] && r.color_g == d[p + 1] && r.color_b == d[p + 2],
        r.pos_x == crate::bytes::le3_signed(d[p + 8], d[p + 9], d[p + 10]),
        r.pos_y == crate::bytes::le3_signed(d[p + 12], d[p + 13], d[p + 14]),
        r.pos_z == d[p + 16] + 256 * d[p + 17] + 65536 * d[p + 18],
        r.param0 == crate::bytes::le2_signed(d[p + 20], d[p + 21]),
        r.param1 == crate::bytes::le2_signed(d[p + 22], d[p + 23]),
{
}

/// Where an `MPRP` rope record puts its position and length: x, y as
/// signed 24-bit little-endian numbers at offsets 5 and 9, z unsigned at
/// 13, and the length signed 16-bit at 32.
pub proof fn law_mprp_layout(r: MprpRecord, d: Seq<u8>, p: int)
    requires
        0 <= p,
        p + 80 <= d.len(),
        mprp_record_at(r, d, p),
    ensures
        r.pos_x == crate::bytes::le3_signed(d[p + 5], d[p + 6], d[p + 7]),
        r.pos_y == crate::bytes::le3_signed(d[p + 9], d[p + 10], d[p + 11]),
        r.pos_z == d[p + 13] + 256 * d[p + 14] + 65536 * d[p + 15],
        r.length == crate::bytes::le2_signed(d[p + 32], d[p + 33]),
{
}

} // verus!
