//! Little- and big-endian integer reads over byte slices.
use vstd::prelude::*;

verus! {

/// Unsigned 16-bit little-endian value of `s[off..off + 2]`.
pub open spec fn spec_u16_le(s: Seq<u8>, off: int) -> int {
    s[off] + s[off + 1] * 256
}

/// Unsigned 32-bit little-endian value of `s[off..off + 4]`.
pub open spec fn spec_u32_le(s: Seq<u8>, off: int) -> int {
    s[off] + s[off + 1] * 0x100 + s[off + 2] * 0x1_0000 + s[off + 3] * 0x100_0000
}

/// Unsigned 32-bit big-endian value of `s[off..off + 4]`.
pub open spec fn spec_u32_be(s: Seq<u8>, off: int) -> int {
    s[off + 3] + s[off + 2] * 0x100 + s[off + 1] * 0x1_0000 + s[off] * 0x100_0000
}

/// Two's-complement reinterpretation of a 16-bit pattern.
pub open spec fn spec_i16_of(v: int) -> int {
    if v >= 0x8000 { v - 0x1_0000 } else { v }
}

/// Two's-complement reinterpretation of a 32-bit pattern.
pub open spec fn spec_i32_of(v: int) -> int {
    if v >= 0x8000_0000 { v - 0x1_0000_0000 } else { v }
}

/// Reads a little-endian `u16` at `off`.
pub fn read_u16_le(s: &[u8], off: usize) -> (r: u16)
    requires
        off + 2 <= s@.len(),
    ensures
        r == spec_u16_le(s@, off as int),
{
    (s[off] as u16) + (s[off + 1] as u16) * 256
}

/// Reads a little-endian `i16` at `off`.
pub fn read_i16_le(s: &[u8], off: usize) -> (r: i16)
    requires
        off + 2 <= s@.len(),
    ensures
        r == spec_i16_of(spec_u16_le(s@, off as int)),
{
    let v = read_u16_le(s, off);
    if v >= 0x8000 {
        ((v as i32) - 0x1_0000) as i16
    } else {
        v as i16
    }
}

/// Reads a little-endian `u32` at `off`.
pub fn read_u32_le(s: &[u8], off: usize) -> (r: u32)
    requires
        off + 4 <= s@.len(),
    ensures
        r == spec_u32_le(s@, off as int),
{
    (s[off] as u32) + (s[off + 1] as u32) * 0x100 + (s[off + 2] as u32) * 0x1_0000 + (s[off
        + 3] as u32) * 0x100_0000
}

/// Reads a big-endian `u32` at `off`.
pub fn read_u32_be(s: &[u8], off: usize) -> (r: u32)
    requires
        off + 4 <= s@.len(),
    ensures
        r == spec_u32_be(s@, off as int),
{
    let b0 = s[off] as u32;
    let b1 = s[off + 1] as u32;
    let b2 = s[off + 2] as u32;
    let b3 = s[off + 3] as u32;
    b3 + b2 * 0x100 + b1 * 0x1_0000 + b0 * 0x100_0000
}

/// Reads a little-endian `i32` at `off`.
pub fn read_i32_le(s: &[u8], off: usize) -> (r: i32)
    requires
        off + 4 <= s@.len(),
    ensures
        r == spec_i32_of(spec_u32_le(s@, off as int)),
{
    let v = read_u32_le(s, off);
    if v >= 0x8000_0000 {
        ((v as i64) - 0x1_0000_0000) as i32
    } else {
        v as i32
    }
}

/// Copies `s[start..end]` into a fresh vector.
pub fn copy_range(s: &[u8], start: usize, end: usize) -> (v: Vec<u8>)
    requires
        start <= end <= s@.len(),
    ensures
        v@ == s@.subrange(start as int, end as int),
{
    let mut v: Vec<u8> = Vec::with_capacity(end - start);
    let mut i = start;
    while i < end
        invariant
            start <= i <= end <= s@.len(),
            v@ == s@.subrange(start as int, i as int),
        decreases end - i,
    {
        v.push(s[i]);
        i += 1;
    }
    v
}

/// The bytes `d[c..c + 4]` are `a b e f`.
pub fn tag_at(d: &[u8], c: usize, a: u8, b: u8, e: u8, f: u8) -> (r: bool)
    requires
        c + 4 <= d@.len(),
    ensures
        r == (d@.subrange(c as int, c + 4) == seq![a, b, e, f]),
{
    let r = d[c] == a && d[c + 1] == b && d[c + 2] == e && d[c + 3] == f;
    assert(r ==> d@.subrange(c as int, c + 4) =~= seq![a, b, e, f]);
    assert(d@.subrange(c as int, c + 4) == seq![a, b, e, f] ==> d@.subrange(c as int, c + 4)[0] == a
        && d@.subrange(c as int, c + 4)[1] == b && d@.subrange(c as int, c + 4)[2] == e
        && d@.subrange(c as int, c + 4)[3] == f);
    r
}

/// Index of the first zero byte of `s` at or after `i`, or its length.
pub open spec fn first_zero_from(s: Seq<u8>, i: int) -> int
    decreases s.len() - i,
{
    if i < 0 || i >= s.len() {
        s.len() as int
    } else if s[i] == 0 {
        i
    } else {
        first_zero_from(s, i + 1)
    }
}

/// Index of the first zero byte of `s`, or its length.
pub fn first_zero(s: &[u8]) -> (r: usize)
    ensures
        r == first_zero_from(s@, 0),
        r <= s@.len(),
{
    let n: usize = s.len();
    let mut i: usize = 0;
    while i < n && s[i] != 0
        invariant
            i <= n == s@.len(),
            first_zero_from(s@, 0) == first_zero_from(s@, i as int),
        decreases n - i,
    {
        i += 1;
    }
    i
}

} // verus!

verus! {

/// The number two bytes stand for, least significant first.
pub open spec fn le2(b0: u8, b1: u8) -> int {
    b0 + 256 * b1
}

/// The two's-complement number two bytes stand for, least significant
/// first: negative when the top bit of the last byte is set.
pub open spec fn le2_signed(b0: u8, b1: u8) -> int {
    if b1 >= 128 {
        le2(b0, b1) - 65536
    } else {
        le2(b0, b1)
    }
}

/// The two's-complement number three bytes stand for, least significant
/// first.
pub open spec fn le3_signed(b0: u8, b1: u8, b2: u8) -> int {
    let v = b0 + 256 * b1 + 65536 * b2;
    if b2 >= 128 {
        v - 16777216
    } else {
        v
    }
}

/// The two's-complement number four bytes stand for, least significant
/// first.
pub open spec fn le4_signed(b0: u8, b1: u8, b2: u8, b3: u8) -> int {
    let v = b0 + 256 * b1 + 65536 * b2 + 16777216 * b3;
    if b3 >= 128 {
        v - 4294967296
    } else {
        v
    }
}

} // verus!
