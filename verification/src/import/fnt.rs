//! Parser for bitmap font files: chunks `FNHD` (header), `BPAL`/`FPAL`
//! (palette), `FBMP` (glyph bitmaps) and optional `RDAT`, then `END ` and
//! zero padding.
use crate::bytes::{first_zero, first_zero_from, read_i16_le, read_u16_le, read_u32_be, spec_i16_of, spec_u16_le, spec_u32_be, tag_at};
use crate::error::{parse_error, Error};
use crate::text::{lossy_string, utf8_lossy};
use vstd::prelude::*;

verus! {

/// Parsed font file.
#[derive(Debug, Clone)]
pub struct FntFile {
    pub chunk_order: Vec<String>,
    pub header: FntHeader,
    pub palette: FntPalette,
    pub glyphs: Vec<FntGlyph>,
    pub rdat: Option<Vec<u8>>,
    pub trailing_padding: Vec<u8>,
}

/// Fields of the `FNHD` chunk.
#[derive(Debug, Clone)]
pub struct FntHeader {
    pub description_raw: [u8; 32],
    pub description_text: String,
    pub unknown_24: u16,
    pub has_rdat: u16,
    pub unknown_28: u16,
    pub unknown_2a: u16,
    pub unknown_2c: u16,
    pub max_width: u16,
    pub line_height: u16,
    pub character_start: u16,
    pub character_count: u16,
    pub unknown_36: u16,
    pub unknown_38: u16,
    pub has_palette: u16,
}

/// Palette chunk (`BPAL` or `FPAL`).
#[derive(Debug, Clone)]
pub struct FntPalette {
    pub tag: [u8; 4],
    pub colors: Vec<[u8; 3]>,
}

/// Glyph bitmap record of the `FBMP` chunk.
#[derive(Debug, Clone)]
pub struct FntGlyph {
    pub enabled: u16,
    pub offset_left: i16,
    pub offset_top: i16,
    pub width: u16,
    pub height: u16,
    pub pixels: Vec<u8>,
}

/// `h` holds the fields of the 56-byte `FNHD` payload `d`.
pub open spec fn fnhd_matches(h: FntHeader, d: Seq<u8>) -> bool {
    let raw = d.subrange(0, 32);
    &&& h.description_raw@ == raw
    &&& h.description_text@ == utf8_lossy(raw.subrange(0, first_zero_from(raw, 0)))
    &&& h.unknown_24 == spec_u16_le(d, 32)
    &&& h.has_rdat == spec_u16_le(d, 34)
    &&& h.unknown_28 == spec_u16_le(d, 36)
    &&& h.unknown_2a == spec_u16_le(d, 38)
    &&& h.unknown_2c == spec_u16_le(d, 40)
    &&& h.max_width == spec_u16_le(d, 42)
    &&& h.line_height == spec_u16_le(d, 44)
    &&& h.character_start == spec_u16_le(d, 46)
    &&& h.character_count == spec_u16_le(d, 48)
    &&& h.unknown_36 == spec_u16_le(d, 50)
    &&& h.unknown_38 == spec_u16_le(d, 52)
    &&& h.has_palette == spec_u16_le(d, 54)
}

fn read_array32(d: &[u8]) -> (a: [u8; 32])
    requires
        d@.len() >= 32,
    ensures
        a@ == d@.subrange(0, 32),
{
    let mut a = [0u8; 32];
    let mut i: usize = 0;
    while i < 32
        invariant
            d@.len() >= 32,
            i <= 32,
            a@.len() == 32,
            forall|k: int| 0 <= k < i ==> a@[k] == d@[k],
        decreases 32 - i,
    {
        a[i] = d[i];
        i += 1;
    }
    assert(a@ =~= d@.subrange(0, 32));
    a
}

/// Parses the `FNHD` payload, which must be 56 bytes long.
pub fn parse_fnhd(data: &[u8]) -> (r: Result<FntHeader, Error>)
    ensures
        r is Ok <==> data@.len() == 56,
        r matches Ok(h) ==> fnhd_matches(h, data@),
        r matches Err(e) ==> e is Parse,
{
    if data.len() != 56 {
        return Err(parse_error("invalid FNHD length"));
    }
    let description_raw = read_array32(data);
    let raw = vstd::slice::slice_subrange(data, 0, 32);
    let nul = first_zero(raw);
    let description_text = lossy_string(vstd::slice::slice_subrange(raw, 0, nul));
    Ok(FntHeader {
        description_raw,
        description_text,
        unknown_24: read_u16_le(data, 32),
        has_rdat: read_u16_le(data, 34),
        unknown_28: read_u16_le(data, 36),
        unknown_2a: read_u16_le(data, 38),
        unknown_2c: read_u16_le(data, 40),
        max_width: read_u16_le(data, 42),
        line_height: read_u16_le(data, 44),
        character_start: read_u16_le(data, 46),
        character_count: read_u16_le(data, 48),
        unknown_36: read_u16_le(data, 50),
        unknown_38: read_u16_le(data, 52),
        has_palette: read_u16_le(data, 54),
    })
}

/// Colours of a palette payload, three bytes each.
pub open spec fn palette_triples(d: Seq<u8>) -> Seq<Seq<u8>> {
    Seq::new((d.len() / 3) as nat, |i: int| seq![d[3 * i], d[3 * i + 1], d[3 * i + 2]])
}

/// Views of palette colours.
pub open spec fn color_views(c: Seq<[u8; 3]>) -> Seq<Seq<u8>> {
    c.map_values(|x: [u8; 3]| x@)
}

/// Parses a palette payload; its length must be a multiple of 3.
pub fn parse_palette(tag: [u8; 4], data: &[u8]) -> (r: Result<FntPalette, Error>)
    ensures
        r is Ok <==> data@.len() % 3 == 0,
        r matches Ok(p) ==> p.tag == tag && color_views(p.colors@) == palette_triples(data@),
        r matches Err(e) ==> e is Parse,
{
    let n: usize = data.len();
    if n % 3 != 0 {
        return Err(parse_error("invalid palette length; must be divisible by 3"));
    }
    let mut colors: Vec<[u8; 3]> = Vec::new();
    let mut i: usize = 0;
    while i < n / 3
        invariant
            n == data@.len(),
            n % 3 == 0,
            i <= n / 3,
            color_views(colors@) =~= palette_triples(data@).take(i as int),
        decreases n / 3 - i,
    {
        let c = [data[3 * i], data[3 * i + 1], data[3 * i + 2]];
        assert(c@ =~= palette_triples(data@)[i as int]);
        let ghost before = colors@;
        colors.push(c);
        assert(color_views(colors@) =~= color_views(before).push(c@));
        assert(palette_triples(data@).take(i + 1) =~= palette_triples(data@).take(i as int).push(c@));
        i += 1;
    }
    assert(palette_triples(data@).take((n / 3) as int) =~= palette_triples(data@));
    Ok(FntPalette { tag, colors })
}

/// Abstract content of a glyph.
pub struct FntGlyphView {
    pub enabled: u16,
    pub offset_left: i16,
    pub offset_top: i16,
    pub width: u16,
    pub height: u16,
    pub pixels: Seq<u8>,
}

impl View for FntGlyph {
    type V = FntGlyphView;

    open spec fn view(&self) -> FntGlyphView {
        FntGlyphView {
            enabled: self.enabled,
            offset_left: self.offset_left,
            offset_top: self.offset_top,
            width: self.width,
            height: self.height,
            pixels: self.pixels@,
        }
    }
}

/// Views of a sequence of glyphs.
pub open spec fn glyph_views(v: Seq<FntGlyph>) -> Seq<FntGlyphView> {
    v.map_values(|g: FntGlyph| g@)
}

/// The `k` glyph records read from `off` on: a 10-byte header (enabled,
/// left and top offsets, width, height) and `width * height` pixel bytes
/// each; the records must fill the payload exactly.
pub open spec fn fbmp_glyphs(d: Seq<u8>, off: int, k: nat) -> Option<Seq<FntGlyphView>>
    decreases k,
{
    if k == 0 {
        if off == d.len() {
            Some(Seq::empty())
        } else {
            None
        }
    } else if off < 0 || off + 10 > d.len() {
        None
    } else {
        let w = spec_u16_le(d, off + 6);
        let h = spec_u16_le(d, off + 8);
        let pe = off + 10 + w * h;
        if pe > d.len() {
            None
        } else {
            let g = FntGlyphView {
                enabled: spec_u16_le(d, off) as u16,
                offset_left: spec_i16_of(spec_u16_le(d, off + 2)) as i16,
                offset_top: spec_i16_of(spec_u16_le(d, off + 4)) as i16,
                width: w as u16,
                height: h as u16,
                pixels: d.subrange(off + 10, pe),
            };
            match fbmp_glyphs(d, pe, (k - 1) as nat) {
                Some(rest) => Some(seq![g] + rest),
                None => None,
            }
        }
    }
}

/// Parses the `FBMP` payload into `glyph_count` glyph records.
pub fn parse_fbmp(data: &[u8], glyph_count: u16) -> (r: Result<Vec<FntGlyph>, Error>)
    ensures
        r is Ok <==> fbmp_glyphs(data@, 0, glyph_count as nat) is Some,
        r matches Ok(v) ==> glyph_views(v@) == fbmp_glyphs(data@, 0, glyph_count as nat)->Some_0,
        r matches Err(e) ==> e is Parse,
{
    let n: usize = data.len();
    let mut offset: usize = 0;
    let mut glyphs: Vec<FntGlyph> = Vec::new();
    let mut k: u16 = 0;
    assert(glyph_views(glyphs@) =~= Seq::<FntGlyphView>::empty());
    while k < glyph_count
        invariant
            n == data@.len(),
            offset <= n,
            k <= glyph_count,
            fbmp_glyphs(data@, 0, glyph_count as nat) == match fbmp_glyphs(
                data@,
                offset as int,
                (glyph_count - k) as nat,
            ) {
                Some(rest) => Some(glyph_views(glyphs@) + rest),
                None => None::<Seq<FntGlyphView>>,
            },
        decreases glyph_count - k,
    {
        if n - offset < 10 {
            return Err(parse_error("truncated FBMP glyph header"));
        }
        let enabled = read_u16_le(data, offset);
        let offset_left = read_i16_le(data, offset + 2);
        let offset_top = read_i16_le(data, offset + 4);
        let width = read_u16_le(data, offset + 6);
        let height = read_u16_le(data, offset + 8);
        let header_end: usize = offset + 10;
        assert((width as int) * (height as int) <= 0xFFFF * 0xFFFF) by (nonlinear_arith);
        let pixels_len: usize = (width as usize) * (height as usize);
        if pixels_len > n - header_end {
            return Err(parse_error("truncated FBMP glyph pixels"));
        }
        let pixel_end: usize = header_end + pixels_len;
        let pixels = crate::bytes::copy_range(data, header_end, pixel_end);
        let glyph = FntGlyph { enabled, offset_left, offset_top, width, height, pixels };
        proof {
            let rest = fbmp_glyphs(data@, pixel_end as int, (glyph_count - k - 1) as nat);
            if rest is Some {
                assert(glyph_views(glyphs@.push(glyph)) + rest->Some_0 =~= glyph_views(glyphs@) + (seq![
                    glyph@,
                ] + rest->Some_0));
            }
        }
        glyphs.push(glyph);
        offset = pixel_end;
        k += 1;
    }
    if offset != n {
        return Err(parse_error("FBMP has trailing bytes after its glyphs"));
    }
    assert(glyph_views(glyphs@) + Seq::<FntGlyphView>::empty() =~= glyph_views(glyphs@));
    Ok(glyphs)
}

} // verus!

verus! {

/// Chunks read so far: their tags in order and the payloads kept.
pub struct FntState {
    pub order: Seq<Seq<u8>>,
    pub fnhd: Option<Seq<u8>>,
    pub palette: Option<(Seq<u8>, Seq<u8>)>,
    pub glyphs: Option<Seq<FntGlyphView>>,
    pub rdat: Option<Seq<u8>>,
}

/// No chunk read yet.
pub open spec fn fnt_initial() -> FntState {
    FntState { order: Seq::empty(), fnhd: None, palette: None, glyphs: None, rdat: None }
}

/// Tags.
pub open spec fn tag_fnhd() -> Seq<u8> { seq![0x46u8, 0x4Eu8, 0x48u8, 0x44u8] }
/// `BPAL`.
pub open spec fn tag_bpal() -> Seq<u8> { seq![0x42u8, 0x50u8, 0x41u8, 0x4Cu8] }
/// `FPAL`.
pub open spec fn tag_fpal() -> Seq<u8> { seq![0x46u8, 0x50u8, 0x41u8, 0x4Cu8] }
/// `FBMP`.
pub open spec fn tag_fbmp() -> Seq<u8> { seq![0x46u8, 0x42u8, 0x4Du8, 0x50u8] }
/// `RDAT`.
pub open spec fn tag_rdat() -> Seq<u8> { seq![0x52u8, 0x44u8, 0x41u8, 0x54u8] }
/// `END `.
pub open spec fn tag_end() -> Seq<u8> { seq![0x45u8, 0x4Eu8, 0x44u8, 0x20u8] }

/// State after the chunk tagged `tag` with payload `d`: each kind of chunk
/// may occur once (`BPAL` and `FPAL` together count as one), `FBMP` needs
/// `FNHD` before it and holds as many glyphs as the header's character
/// count; any other tag is refused.
pub open spec fn chunk_step(tag: Seq<u8>, d: Seq<u8>, st0: FntState) -> Option<FntState> {
    let st = FntState { order: st0.order.push(tag), ..st0 };
    if tag == tag_fnhd() {
        if st.fnhd is Some || d.len() != 56 {
            None
        } else {
            Some(FntState { fnhd: Some(d), ..st })
        }
    } else if tag == tag_bpal() || tag == tag_fpal() {
        if st.palette is Some || d.len() % 3 != 0 {
            None
        } else {
            Some(FntState { palette: Some((tag, d)), ..st })
        }
    } else if tag == tag_fbmp() {
        if st.glyphs is Some || st.fnhd is None {
            None
        } else {
            match fbmp_glyphs(d, 0, spec_u16_le(st.fnhd->Some_0, 48) as nat) {
                Some(g) => Some(FntState { glyphs: Some(g), ..st }),
                None => None,
            }
        }
    } else if tag == tag_rdat() {
        if st.rdat is Some {
            None
        } else {
            Some(FntState { rdat: Some(d), ..st })
        }
    } else {
        None
    }
}

/// State and position after the chunks from `pos` on: reading stops at the
/// end of the data or after an `END ` tag (recorded as `END`).
pub open spec fn fnt_from(b: Seq<u8>, pos: int, st: FntState) -> Option<(FntState, int)>
    decreases b.len() - pos,
{
    if pos < 0 || pos >= b.len() {
        Some((st, pos))
    } else if pos + 4 > b.len() {
        None
    } else if b.subrange(pos, pos + 4) == tag_end() {
        Some((FntState { order: st.order.push(b.subrange(pos, pos + 3)), ..st }, pos + 4))
    } else if pos + 8 > b.len() {
        None
    } else {
        let e = pos + 8 + spec_u32_be(b, pos + 4);
        if e > b.len() {
            None
        } else {
            match chunk_step(b.subrange(pos, pos + 4), b.subrange(pos + 8, e), st) {
                Some(s2) => fnt_from(b, e, s2),
                None => None,
            }
        }
    }
}

/// All bytes are zero.
pub open spec fn all_zero(s: Seq<u8>) -> bool {
    forall|i: int| 0 <= i < s.len() ==> #[trigger] s[i] == 0
}

/// `b` is a complete font file: header, palette and glyphs are present, the
/// `RDAT` chunk is present exactly when the header's flag says 1 (and absent
/// when it says 0), and only zero bytes follow the chunks.
pub open spec fn fnt_ok(b: Seq<u8>) -> bool {
    match fnt_from(b, 0, fnt_initial()) {
        Some((st, p)) => {
            &&& st.fnhd is Some
            &&& st.palette is Some
            &&& st.glyphs is Some
            &&& spec_u16_le(st.fnhd->Some_0, 34) == 1 ==> st.rdat is Some
            &&& spec_u16_le(st.fnhd->Some_0, 34) == 0 ==> st.rdat is None
            &&& all_zero(b.subrange(p, b.len() as int))
        },
        None => false,
    }
}

/// The decoder's variables hold the chunks of `st`.
pub open spec fn fnt_vars_hold(
    order: Seq<String>,
    header: Option<FntHeader>,
    palette: Option<FntPalette>,
    glyphs: Option<Vec<FntGlyph>>,
    rdat: Option<Vec<u8>>,
    st: FntState,
) -> bool {
    &&& order.len() == st.order.len()
    &&& forall|i: int| 0 <= i < order.len() ==> #[trigger] order[i]@ == utf8_lossy(st.order[i])
    &&& (header is Some <==> st.fnhd is Some)
    &&& (header matches Some(h) ==> fnhd_matches(h, st.fnhd->Some_0))
    &&& (palette is Some <==> st.palette is Some)
    &&& (palette matches Some(p) ==> p.tag@ == st.palette->Some_0.0 && color_views(p.colors@)
        == palette_triples(st.palette->Some_0.1))
    &&& (glyphs is Some <==> st.glyphs is Some)
    &&& (glyphs matches Some(g) ==> glyph_views(g@) == st.glyphs->Some_0)
    &&& (rdat is Some <==> st.rdat is Some)
    &&& (rdat matches Some(r) ==> r@ == st.rdat->Some_0)
}

fn finish_fnt(
    bytes: &[u8],
    pos: usize,
    chunk_order: Vec<String>,
    header: Option<FntHeader>,
    palette: Option<FntPalette>,
    glyphs: Option<Vec<FntGlyph>>,
    rdat: Option<Vec<u8>>,
    Ghost(st): Ghost<FntState>,
) -> (r: Result<FntFile, Error>)
    requires
        pos <= bytes@.len(),
        fnt_vars_hold(chunk_order@, header, palette, glyphs, rdat, st),
    ensures
        r is Ok <==> {
            &&& st.fnhd is Some
            &&& st.palette is Some
            &&& st.glyphs is Some
            &&& spec_u16_le(st.fnhd->Some_0, 34) == 1 ==> st.rdat is Some
            &&& spec_u16_le(st.fnhd->Some_0, 34) == 0 ==> st.rdat is None
            &&& all_zero(bytes@.subrange(pos as int, bytes@.len() as int))
        },
        r matches Ok(f) ==> fnt_vars_hold(
            f.chunk_order@,
            Some(f.header),
            Some(f.palette),
            Some(f.glyphs),
            f.rdat,
            st,
        ) && f.trailing_padding@ == bytes@.subrange(pos as int, bytes@.len() as int),
        r matches Err(e) ==> e is Parse,
{
    let header = match header {
        Some(h) => h,
        None => return Err(parse_error("missing FNHD chunk")),
    };
    let palette = match palette {
        Some(p) => p,
        None => return Err(parse_error("missing BPAL/FPAL chunk")),
    };
    let glyphs = match glyphs {
        Some(g) => g,
        None => return Err(parse_error("missing FBMP chunk")),
    };
    if header.has_rdat == 1 && rdat.is_none() {
        return Err(parse_error("FNHD.HasRDAT is 1 but RDAT chunk is missing"));
    }
    if header.has_rdat == 0 && rdat.is_some() {
        return Err(parse_error("FNHD.HasRDAT is 0 but RDAT chunk is present"));
    }
    let n: usize = bytes.len();
    let mut i: usize = pos;
    while i < n
        invariant
            pos <= i <= n == bytes@.len(),
            forall|k: int| 0 <= k < i - pos ==> #[trigger] bytes@.subrange(pos as int, n as int)[k] == 0,
        decreases n - i,
    {
        assert(bytes@.subrange(pos as int, n as int)[i - pos] == bytes@[i as int]);
        if bytes[i] != 0 {
            return Err(parse_error("non-zero trailing data after END marker"));
        }
        i += 1;
    }
    let trailing_padding = crate::bytes::copy_range(bytes, pos, n);
    Ok(FntFile { chunk_order, header, palette, glyphs, rdat, trailing_padding })
}

} // verus!

verus! {

fn read_tag4(d: &[u8], c: usize) -> (t: [u8; 4])
    requires
        c + 4 <= d@.len(),
    ensures
        t@ == d@.subrange(c as int, c + 4),
{
    let t = [d[c], d[c + 1], d[c + 2], d[c + 3]];
    assert(t@ =~= d@.subrange(c as int, c + 4));
    t
}

/// Parses a font file.
pub fn parse_fnt(bytes: &[u8]) -> (r: Result<FntFile, Error>)
    ensures
        r is Ok <==> fnt_ok(bytes@),
        r matches Ok(f) ==> {
            let (st, p) = fnt_from(bytes@, 0, fnt_initial())->Some_0;
            &&& fnt_vars_hold(f.chunk_order@, Some(f.header), Some(f.palette), Some(f.glyphs), f.rdat, st)
            &&& f.trailing_padding@ == bytes@.subrange(p, bytes@.len() as int)
        },
        r matches Err(e) ==> e is Parse,
{
    let n: usize = bytes.len();
    let mut pos: usize = 0;
    let mut chunk_order: Vec<String> = Vec::new();
    let mut header: Option<FntHeader> = None;
    let mut palette: Option<FntPalette> = None;
    let mut glyphs: Option<Vec<FntGlyph>> = None;
    let mut rdat: Option<Vec<u8>> = None;
    let ghost mut st = fnt_initial();
    loop
        invariant
            n == bytes@.len(),
            pos <= n,
            fnt_vars_hold(chunk_order@, header, palette, glyphs, rdat, st),
            fnt_from(bytes@, 0, fnt_initial()) == fnt_from(bytes@, pos as int, st),
        decreases n - pos,
    {
        if pos >= n {
            return finish_fnt(bytes, pos, chunk_order, header, palette, glyphs, rdat, Ghost(st));
        }
        if n - pos < 4 {
            return Err(parse_error("truncated chunk tag"));
        }
        let tag = read_tag4(bytes, pos);
        if tag_at(bytes, pos, 0x45, 0x4E, 0x44, 0x20) {
            let name = lossy_string(vstd::slice::slice_subrange(bytes, pos, pos + 3));
            chunk_order.push(name);
            proof {
                st = FntState { order: st.order.push(bytes@.subrange(pos as int, pos + 3)), ..st };
            }
            return finish_fnt(bytes, pos + 4, chunk_order, header, palette, glyphs, rdat, Ghost(st));
        }
        if n - pos < 8 {
            return Err(parse_error("truncated chunk length"));
        }
        let chunk_len = read_u32_be(bytes, pos + 4) as usize;
        let data_start: usize = pos + 8;
        if chunk_len > n - data_start {
            return Err(parse_error("chunk length exceeds file size"));
        }
        let data_end: usize = data_start + chunk_len;
        let data = vstd::slice::slice_subrange(bytes, data_start, data_end);
        let name = lossy_string(vstd::slice::slice_subrange(bytes, pos, pos + 4));
        chunk_order.push(name);
        let ghost tag_s = bytes@.subrange(pos as int, pos + 4);
        let ghost st1 = FntState { order: st.order.push(tag_s), ..st };
        assert(tag@ == tag_s);
        if tag_at(bytes, pos, 0x46, 0x4E, 0x48, 0x44) {
            if header.is_some() {
                return Err(parse_error("duplicate FNHD chunk"));
            }
            header = Some(parse_fnhd(data)?);
        } else if tag_at(bytes, pos, 0x42, 0x50, 0x41, 0x4C) || tag_at(bytes, pos, 0x46, 0x50, 0x41, 0x4C) {
            if palette.is_some() {
                return Err(parse_error("duplicate palette chunk"));
            }
            palette = Some(parse_palette(tag, data)?);
        } else if tag_at(bytes, pos, 0x46, 0x42, 0x4D, 0x50) {
            if glyphs.is_some() {
                return Err(parse_error("duplicate FBMP chunk"));
            }
            let count: u16 = match &header {
                Some(h) => h.character_count,
                None => return Err(parse_error("FBMP encountered before FNHD")),
            };
            glyphs = Some(parse_fbmp(data, count)?);
        } else if tag_at(bytes, pos, 0x52, 0x44, 0x41, 0x54) {
            if rdat.is_some() {
                return Err(parse_error("duplicate RDAT chunk"));
            }
            rdat = Some(crate::bytes::copy_range(bytes, data_start, data_end));
        } else {
            return Err(parse_error("unsupported FNT chunk tag"));
        }
        proof {
            st = chunk_step(tag_s, data@, st)->Some_0;
        }
        pos = data_end;
    }
}

} // verus!

verus! {

/// The glyph records of a bitmap chunk read from `off`: the first record
/// holds, as little-endian 16-bit numbers, the enabled flag at `off`, the
/// signed left offset at `off + 2`, the signed top offset at `off + 4`, the
/// width at `off + 6` and the height at `off + 8`, then `width * height`
/// pixel bytes; the other glyphs are the records read right after it.
pub proof fn law_fbmp_record_layout(d: Seq<u8>, off: int, k: nat)
    requires
        k >= 1,
        fbmp_glyphs(d, off, k) is Some,
    ensures
        ({
            let gs = fbmp_glyphs(d, off, k)->Some_0;
            let g = gs[0];
            let w = crate::bytes::le2(d[off + 6], d[off + 7]);
            let h = crate::bytes::le2(d[off + 8], d[off + 9]);
            &&& 0 <= off && off + 10 + w * h <= d.len()
            &&& gs.len() == k
            &&& g.enabled == crate::bytes::le2(d[off], d[off + 1])
            &&& g.offset_left == crate::bytes::le2_signed(d[off + 2], d[off + 3])
            &&& g.offset_top == crate::bytes::le2_signed(d[off + 4], d[off + 5])
            &&& g.width == w
            &&& g.height == h
            &&& g.pixels == d.subrange(off + 10, off + 10 + w * h)
            &&& fbmp_glyphs(d, off + 10 + w * h, (k - 1) as nat) == Some(gs.drop_first())
        }),
{
    let w = spec_u16_le(d, off + 6);
    let h = spec_u16_le(d, off + 8);
    let pe = off + 10 + w * h;
    let rest = fbmp_glyphs(d, pe, (k - 1) as nat);
    lemma_fbmp_len(d, pe, (k - 1) as nat);
    assert((seq![fbmp_glyphs(d, off, k)->Some_0[0]] + rest->Some_0).drop_first() =~= rest->Some_0);
}

proof fn lemma_fbmp_len(d: Seq<u8>, off: int, k: nat)
    requires
        fbmp_glyphs(d, off, k) is Some,
    ensures
        fbmp_glyphs(d, off, k)->Some_0.len() == k,
    decreases k,
{
    if k > 0 {
        let w = spec_u16_le(d, off + 6);
        let h = spec_u16_le(d, off + 8);
        lemma_fbmp_len(d, off + 10 + w * h, (k - 1) as nat);
    }
}

/// Where the 56-byte font header puts its sizes, as little-endian 16-bit
/// numbers: the widest glyph at 42, the line height at 44, the first
/// character at 46 and the character count at 48.
pub proof fn law_fnhd_layout(h: FntHeader, d: Seq<u8>)
    requires
        d.len() >= 56,
        fnhd_matches(h, d),
    ensures
        h.max_width == crate::bytes::le2(d[42], d[43]),
        h.line_height == crate::bytes::le2(d[44], d[45]),
        h.character_start == crate::bytes::le2(d[46], d[47]),
        h.character_count == crate::bytes::le2(d[48], d[49]),
{
}

} // verus!
