//! Parser for terrain files: a header, four 128×128 map sections laid out
//! as a 2×2 grid, and a footer.
use crate::bytes::{read_u32_le, spec_u32_le};
use crate::error::{parse_error, Error, Result};
use vstd::prelude::*;

verus! {

pub const WLD_HEADER_BYTES: usize = 1184;

pub const WLD_HEADER_DWORDS: usize = WLD_HEADER_BYTES / 4;

pub const WLD_SECTION_COUNT: usize = 4;

pub const WLD_SECTION_HEADER_BYTES: usize = 22;

pub const WLD_MAP_SIDE: usize = 128;

pub const WLD_MAP_BYTES: usize = WLD_MAP_SIDE * WLD_MAP_SIDE;

pub const WLD_SECTION_BYTES: usize = WLD_SECTION_HEADER_BYTES + (4 * WLD_MAP_BYTES);

pub const WLD_FOOTER_BYTES: usize = 16;

/// Parsed file header stored as raw 32-bit fields.
#[derive(Debug, Clone)]
pub struct WldHeader {
    pub fields: [u32; WLD_HEADER_DWORDS],
}

impl WldHeader {
    /// Returns the four section offsets from header fields 36..39.
    pub fn section_offsets(&self) -> (r: [u32; WLD_SECTION_COUNT])
        ensures
            r@ == self.fields@.subrange(36, 40),
    {
        let r = [self.fields[36], self.fields[37], self.fields[38], self.fields[39]];
        assert(r@ =~= self.fields@.subrange(36, 40));
        r
    }
}

/// One map section: a header blob and four 128×128 maps.
#[derive(Debug, Clone)]
pub struct WldSection {
    pub header: [u8; WLD_SECTION_HEADER_BYTES],
    pub maps: [[u8; WLD_MAP_BYTES]; 4],
}

/// Parsed terrain file with header, four sections, and footer bytes.
#[derive(Debug, Clone)]
pub struct WldFile {
    pub header: WldHeader,
    pub sections: [WldSection; WLD_SECTION_COUNT],
    pub footer: [u8; WLD_FOOTER_BYTES],
}

fn read_fixed<const N: usize>(data: &[u8], offset: usize) -> (r: [u8; N])
    requires
        offset + N <= data@.len(),
    ensures
        r@ == data@.subrange(offset as int, offset + N),
{
    let n: usize = data.len();
    let mut a: [u8; N] = [0u8; N];
    let mut i: usize = 0;
    while i < N
        invariant
            offset + N <= data@.len() == n,
            i <= N,
            a@.len() == N,
            forall|k: int| 0 <= k < i ==> a@[k] == data@[offset + k],
        decreases N - i,
    {
        a[i] = data[offset + i];
        i += 1;
    }
    assert(a@ =~= data@.subrange(offset as int, offset + N));
    a
}

} // verus!

verus! {

/// Offset of section `i` declared in the header (fields 36..39).
pub open spec fn wld_offset(d: Seq<u8>, i: int) -> int {
    spec_u32_le(d, 144 + 4 * i)
}

/// Where section `i` may extend to: the next section, or the footer for the last one.
pub open spec fn wld_limit(d: Seq<u8>, i: int) -> int {
    if i < 3 {
        wld_offset(d, i + 1)
    } else {
        d.len() - WLD_FOOTER_BYTES
    }
}

/// `d` is a terrain file with a consistent section layout.
pub open spec fn wld_ok(d: Seq<u8>) -> bool {
    &&& d.len() >= WLD_HEADER_BYTES + WLD_FOOTER_BYTES
    &&& wld_offset(d, 0) == WLD_HEADER_BYTES
    &&& spec_u32_le(d, 24) == WLD_SECTION_HEADER_BYTES
    &&& forall|i: int|
        0 <= i < 4 ==> {
            &&& #[trigger] wld_offset(d, i) < d.len()
            &&& wld_offset(d, i) < wld_limit(d, i)
            &&& wld_limit(d, i) - wld_offset(d, i) >= WLD_SECTION_BYTES
        }
}

/// `s` is the section stored at `d[o..]`.
pub open spec fn wld_section_at(s: WldSection, d: Seq<u8>, o: int) -> bool {
    &&& s.header@ == d.subrange(o, o + WLD_SECTION_HEADER_BYTES)
    &&& forall|m: int|
        0 <= m < 4 ==> (#[trigger] s.maps@[m])@ == d.subrange(
            o + WLD_SECTION_HEADER_BYTES + WLD_MAP_BYTES * m,
            o + WLD_SECTION_HEADER_BYTES + WLD_MAP_BYTES * (m + 1),
        )
}

/// `f` holds what a consistent file `d` stores.
pub open spec fn wld_file_of(f: WldFile, d: Seq<u8>) -> bool {
    &&& forall|k: int| 0 <= k < WLD_HEADER_DWORDS ==> #[trigger] f.header.fields@[k] == spec_u32_le(d, 4 * k)
    &&& forall|i: int| 0 <= i < 4 ==> wld_section_at(#[trigger] f.sections@[i], d, wld_offset(d, i))
    &&& f.footer@ == d.subrange(d.len() - WLD_FOOTER_BYTES, d.len() as int)
}

fn parse_section(data: &[u8], start: usize) -> (s: WldSection)
    requires
        start + WLD_SECTION_BYTES <= data@.len(),
    ensures
        wld_section_at(s, data@, start as int),
{
    let _n: usize = data.len();
    let c: usize = start + WLD_SECTION_HEADER_BYTES;
    let header: [u8; WLD_SECTION_HEADER_BYTES] = read_fixed(data, start);
    let m0: [u8; WLD_MAP_BYTES] = read_fixed(data, c);
    let m1: [u8; WLD_MAP_BYTES] = read_fixed(data, c + WLD_MAP_BYTES);
    let m2: [u8; WLD_MAP_BYTES] = read_fixed(data, c + 2 * WLD_MAP_BYTES);
    let m3: [u8; WLD_MAP_BYTES] = read_fixed(data, c + 3 * WLD_MAP_BYTES);
    let s = WldSection { header, maps: [m0, m1, m2, m3] };
    assert forall|m: int| 0 <= m < 4 implies (#[trigger] s.maps@[m])@ == data@.subrange(
        start + WLD_SECTION_HEADER_BYTES + WLD_MAP_BYTES * m,
        start + WLD_SECTION_HEADER_BYTES + WLD_MAP_BYTES * (m + 1),
    ) by {
        if m == 0 {
            assert(s.maps@[m] == m0);
        } else if m == 1 {
            assert(s.maps@[m] == m1);
        } else if m == 2 {
            assert(s.maps@[m] == m2);
        } else {
            assert(s.maps@[m] == m3);
        }
    }
    s
}

/// Parses a terrain file and validates its section layout: the first section
/// follows the header, sections are in increasing order, and each leaves room
/// for its header and four maps before the next section (or the footer).
pub fn parse_wld_file(data: &[u8]) -> (r: Result<WldFile>)
    ensures
        r is Ok <==> wld_ok(data@),
        r matches Ok(f) ==> wld_file_of(f, data@),
        r matches Err(e) ==> e is Parse,
{
    let n: usize = data.len();
    if n < WLD_HEADER_BYTES + WLD_FOOTER_BYTES {
        return Err(parse_error("WLD file too small"));
    }
    let mut fields = [0u32; WLD_HEADER_DWORDS];
    let mut idx: usize = 0;
    while idx < WLD_HEADER_DWORDS
        invariant
            n == data@.len() >= WLD_HEADER_BYTES + WLD_FOOTER_BYTES,
            idx <= WLD_HEADER_DWORDS,
            fields@.len() == WLD_HEADER_DWORDS,
            forall|k: int| 0 <= k < idx ==> fields@[k] == spec_u32_le(data@, 4 * k),
        decreases WLD_HEADER_DWORDS - idx,
    {
        fields[idx] = read_u32_le(data, idx * 4);
        idx += 1;
    }
    let header = WldHeader { fields };
    let offsets = header.section_offsets();
    assert forall|i: int| 0 <= i < 4 implies offsets@[i] == wld_offset(data@, i) by {
        assert(offsets@[i] == fields@[36 + i]);
    }
    if offsets[0] as usize != WLD_HEADER_BYTES {
        return Err(parse_error("WLD section 0 offset does not follow the header"));
    }
    if header.fields[6] as usize != WLD_SECTION_HEADER_BYTES {
        return Err(parse_error("WLD section header size mismatch"));
    }
    let mut i: usize = 0;
    while i < WLD_SECTION_COUNT
        invariant
            n == data@.len() >= WLD_HEADER_BYTES + WLD_FOOTER_BYTES,
            i <= 4,
            forall|k: int| 0 <= k < 4 ==> offsets@[k] == wld_offset(data@, k),
            forall|k: int|
                0 <= k < i ==> {
                    &&& #[trigger] wld_offset(data@, k) < data@.len()
                    &&& wld_offset(data@, k) < wld_limit(data@, k)
                    &&& wld_limit(data@, k) - wld_offset(data@, k) >= WLD_SECTION_BYTES
                },
        decreases 4 - i,
    {
        let next_off: usize = if i + 1 < WLD_SECTION_COUNT {
            offsets[i + 1] as usize
        } else {
            n - WLD_FOOTER_BYTES
        };
        let current: usize = offsets[i] as usize;
        if current >= n {
            return Err(parse_error("WLD section offset out of range"));
        }
        if current >= next_off {
            return Err(parse_error("WLD section offsets are not strictly increasing"));
        }
        if next_off - current < WLD_SECTION_BYTES {
            return Err(parse_error("WLD section too small"));
        }
        i += 1;
    }
    assert(wld_offset(data@, 1) < data@.len());
    assert(wld_offset(data@, 2) < data@.len());
    assert(wld_offset(data@, 3) < data@.len());
    let s0 = parse_section(data, offsets[0] as usize);
    let s1 = parse_section(data, offsets[1] as usize);
    let s2 = parse_section(data, offsets[2] as usize);
    let s3 = parse_section(data, offsets[3] as usize);
    let footer: [u8; WLD_FOOTER_BYTES] = read_fixed(data, n - WLD_FOOTER_BYTES);
    let f = WldFile { header, sections: [s0, s1, s2, s3], footer };
    assert forall|k: int| 0 <= k < 4 implies wld_section_at(
        #[trigger] f.sections@[k],
        data@,
        wld_offset(data@, k),
    ) by {
        if k == 0 {
            assert(f.sections@[k] == s0);
        } else if k == 1 {
            assert(f.sections@[k] == s1);
        } else if k == 2 {
            assert(f.sections@[k] == s2);
        } else {
            assert(f.sections@[k] == s3);
        }
    }
    Ok(f)
}

} // verus!

verus! {

/// Side of the combined 2×2 map.
pub open spec fn combined_side() -> int {
    2 * WLD_MAP_SIDE
}

/// Value at index `i` of map layer `m` stitched from the four sections:
/// section 0 top-left, 1 top-right, 2 bottom-left, 3 bottom-right.
pub open spec fn combined_at(f: WldFile, m: int, i: int) -> u8 {
    let y = i / combined_side();
    let x = i % combined_side();
    let q = (if y >= WLD_MAP_SIDE { 2int } else { 0int }) + (if x >= WLD_MAP_SIDE { 1int } else { 0int });
    f.sections@[q].maps@[m]@[(y % WLD_MAP_SIDE as int) * WLD_MAP_SIDE + x % WLD_MAP_SIDE as int]
}

impl WldFile {
    /// Combines one map layer across the four sections into a 2×2 grid of
    /// their square maps, row by row.
    pub fn combined_map(&self, map_index: usize) -> (r: Result<Vec<u8>>)
        ensures
            r is Ok <==> map_index < 4,
            r matches Ok(v) ==> v@ == Seq::new(
                (combined_side() * combined_side()) as nat,
                |i: int| combined_at(*self, map_index as int, i),
            ),
            r matches Err(e) ==> e is Parse,
    {
        if map_index >= 4 {
            return Err(parse_error("WLD map index out of range"));
        }
        let side: usize = WLD_MAP_SIDE * 2;
        let total: usize = side * side;
        let mut out: Vec<u8> = Vec::with_capacity(total);
        let mut i: usize = 0;
        while i < total
            invariant
                map_index < 4,
                side == combined_side(),
                total == side * side,
                i <= total,
                out@ =~= Seq::new(i as nat, |k: int| combined_at(*self, map_index as int, k)),
            decreases total - i,
        {
            let y: usize = i / side;
            let x: usize = i % side;
            let q: usize = (if y >= WLD_MAP_SIDE { 2 } else { 0 }) + (if x >= WLD_MAP_SIDE { 1 } else { 0 });
            let src: usize = (y % WLD_MAP_SIDE) * WLD_MAP_SIDE + x % WLD_MAP_SIDE;
            out.push(self.sections[q].maps[map_index][src]);
            i += 1;
        }
        Ok(out)
    }

    /// Returns combined map layer 0 with the high bit of every byte cleared,
    /// as heightmap luminance (no scaling).
    pub fn combined_heightmap_luma(&self) -> (r: Result<Vec<u8>>)
        ensures
            r matches Ok(v) && v@ == Seq::new(
                (combined_side() * combined_side()) as nat,
                |i: int| combined_at(*self, 0, i) & 0x7F,
            ),
    {
        let map1 = self.combined_map(0)?;
        let mut out: Vec<u8> = Vec::with_capacity(map1.len());
        let mut i: usize = 0;
        while i < map1.len()
            invariant
                i <= map1@.len(),
                out@ =~= Seq::new(i as nat, |k: int| map1@[k] & 0x7F),
            decreases map1@.len() - i,
        {
            out.push(map1[i] & 0x7F);
            i += 1;
        }
        Ok(out)
    }
}

/// In a combined map, pixel `(x, y)` of section `q` lands in quadrant `q`
/// of the 2x2 grid (0 top left, 1 top right, 2 bottom left, 3 bottom right).
pub proof fn law_sections_form_grid(f: WldFile, m: int, q: int, x: int, y: int)
    requires
        0 <= q < 4,
        0 <= x < WLD_MAP_SIDE,
        0 <= y < WLD_MAP_SIDE,
    ensures
        combined_at(f, m, ((q / 2) * WLD_MAP_SIDE + y) * combined_side() + (q % 2) * WLD_MAP_SIDE + x)
            == f.sections@[q].maps@[m]@[y * WLD_MAP_SIDE + x],
{
    let side = combined_side() as int;
    let row = (q / 2) * WLD_MAP_SIDE + y;
    let col = (q % 2) * WLD_MAP_SIDE + x;
    let i = row * side + col;
    assert(i / side == row && i % side == col) by (nonlinear_arith)
        requires
            i == row * side + col,
            0 <= col < side,
            0 <= row,
            side > 0,
    ;
}

} // verus!

verus! {

/// Texture archive the engine draws terrain with, whatever a file declares.
pub const ENGINE_TERRAIN_TEXBSI_ID: u16 = 302;

impl WldFile {
    /// The texture archive the first section's header declares: the
    /// little-endian word at header offset 6.
    pub fn declared_texbsi_id(&self) -> (r: Option<u16>)
        ensures
            r == Some((self.sections@[0].header@[6] + 256 * self.sections@[0].header@[7]) as u16),
    {
        let h = &self.sections[0].header;
        Some((h[6] as u16) + 256 * (h[7] as u16))
    }
}

} // verus!
