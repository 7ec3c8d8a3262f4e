//! Turning a bitmap font into a TrueType font through `bitmap2ttf`: the
//! glyph bitmaps are taken from the font here, the outlines are built there.
use crate::error::Error;
use crate::import::fnt::FntFile;
use vstd::prelude::*;

verus! {

/// One glyph bitmap as handed to the font builder.
#[derive(Debug, Clone)]
pub struct GlyphBitmap {
    pub codepoint: u32,
    pub width: u16,
    pub height: u16,
    pub offset_x: i16,
    pub offset_y: i16,
    /// One byte per pixel, row by row; non-zero pixels are drawn.
    pub pixels: Vec<u8>,
}

/// Code point of glyph `i` of a font whose first character is `start`:
/// `start + i`, saturating at the largest `u32`.
pub open spec fn glyph_codepoint(start: u16, i: int) -> u32 {
    let idx = i as u32;
    if start + idx > u32::MAX {
        u32::MAX
    } else {
        (start + idx) as u32
    }
}

/// `b` is glyph `i` of the font: its code point, size and offsets, and its
/// pixels, all cleared when the glyph is disabled.
pub open spec fn bitmap_of(b: GlyphBitmap, fnt: FntFile, i: int) -> bool {
    let g = fnt.glyphs@[i];
    &&& b.codepoint == glyph_codepoint(fnt.header.character_start, i)
    &&& b.width == g.width
    &&& b.height == g.height
    &&& b.offset_x == g.offset_left
    &&& b.offset_y == g.offset_top
    &&& b.pixels@ == (if g.enabled != 0 {
        g.pixels@
    } else {
        Seq::new(g.pixels@.len(), |k: int| 0u8)
    })
}

/// The glyph bitmaps of a font, in glyph order.
pub fn fnt_glyph_bitmaps(fnt: &FntFile) -> (r: Vec<GlyphBitmap>)
    ensures
        r@.len() == fnt.glyphs@.len(),
        forall|i: int| 0 <= i < r@.len() ==> bitmap_of(#[trigger] r@[i], *fnt, i),
{
    let start: u32 = fnt.header.character_start as u32;
    let mut out: Vec<GlyphBitmap> = Vec::new();
    let mut i: usize = 0;
    while i < fnt.glyphs.len()
        invariant
            i <= fnt.glyphs@.len(),
            start == fnt.header.character_start as u32,
            out@.len() == i,
            forall|k: int| 0 <= k < i ==> bitmap_of(#[trigger] out@[k], *fnt, k),
        decreases fnt.glyphs@.len() - i,
    {
        let g = &fnt.glyphs[i];
        #[verifier::truncate]
        let idx: u32 = i as u32;
        let codepoint: u32 = start.saturating_add(idx);
        let mut pixels: Vec<u8> = Vec::new();
        let mut k: usize = 0;
        while k < g.pixels.len()
            invariant
                k <= g.pixels@.len(),
                pixels@ == (if g.enabled != 0 {
                    g.pixels@.take(k as int)
                } else {
                    Seq::new(k as nat, |j: int| 0u8)
                }),
            decreases g.pixels@.len() - k,
        {
            if g.enabled != 0 {
                pixels.push(g.pixels[k]);
                assert(g.pixels@.take(k + 1) =~= g.pixels@.take(k as int).push(g.pixels@[k as int]));
            } else {
                pixels.push(0);
                assert(Seq::new((k + 1) as nat, |j: int| 0u8) =~= Seq::new(k as nat, |j: int| 0u8).push(0u8));
            }
            k += 1;
        }
        assert(g.pixels@.take(k as int) =~= g.pixels@);
        let b = GlyphBitmap {
            codepoint,
            width: g.width,
            height: g.height,
            offset_x: g.offset_left,
            offset_y: g.offset_top,
            pixels,
        };
        out.push(b);
        i += 1;
    }
    out
}

/// A glyph bitmap as values: code point, size, offsets and pixels.
pub open spec fn glyph_view(b: GlyphBitmap) -> (u32, u16, u16, i16, i16, Seq<u8>) {
    (b.codepoint, b.width, b.height, b.offset_x, b.offset_y, b.pixels@)
}

/// Glyph bitmaps as values.
pub open spec fn glyph_views(s: Seq<GlyphBitmap>) -> Seq<(u32, u16, u16, i16, i16, Seq<u8>)> {
    s.map_values(|b: GlyphBitmap| glyph_view(b))
}

/// The glyph bitmaps of a font as values (see `bitmap_of`).
pub open spec fn font_glyph_views(fnt: FntFile) -> Seq<(u32, u16, u16, i16, i16, Seq<u8>)> {
    Seq::new(
        fnt.glyphs@.len(),
        |i: int|
            {
                let g = fnt.glyphs@[i];
                (
                    glyph_codepoint(fnt.header.character_start, i),
                    g.width,
                    g.height,
                    g.offset_left,
                    g.offset_top,
                    if g.enabled != 0 {
                        g.pixels@
                    } else {
                        Seq::new(g.pixels@.len(), |k: int| 0u8)
                    },
                )
            },
    )
}

/// The line height a font is built with: the font's, at least 1.
pub open spec fn font_line_height(fnt: FntFile) -> u16 {
    if fnt.header.line_height < 1 {
        1
    } else {
        fnt.header.line_height
    }
}

/// What the font builder is handed: the glyph bitmaps, the family name and
/// the line height.
#[derive(Debug, Clone)]
pub struct TtfRequest {
    pub glyphs: Vec<GlyphBitmap>,
    pub family_name: String,
    pub line_height: u16,
}

/// The request for building a TrueType font from a bitmap font: its glyph
/// bitmaps in glyph order, the family name `family_name`, and the font's
/// line height, at least 1.
pub fn ttf_request(fnt: &FntFile, family_name: &str) -> (r: TtfRequest)
    ensures
        glyph_views(r.glyphs@) == font_glyph_views(*fnt),
        r.glyphs@.len() == fnt.glyphs@.len(),
        forall|i: int| 0 <= i < r.glyphs@.len() ==> bitmap_of(#[trigger] r.glyphs@[i], *fnt, i),
        r.family_name@ == family_name@,
        r.line_height == font_line_height(*fnt),
{
    let glyphs = fnt_glyph_bitmaps(fnt);
    let line_height: u16 = if fnt.header.line_height < 1 { 1 } else { fnt.header.line_height };
    assert(glyph_views(glyphs@) =~= font_glyph_views(*fnt)) by {
        assert forall|i: int| 0 <= i < glyphs@.len() implies #[trigger] glyph_views(glyphs@)[i] == font_glyph_views(*fnt)[i] by {
            assert(bitmap_of(glyphs@[i], *fnt, i));
        }
    }
    TtfRequest { glyphs, family_name: family_name.to_owned(), line_height }
}

/// Whether `bitmap2ttf::build_ttf`, with the default scale and a system
/// clock set after 1970, builds a font from these glyphs (as values),
/// family name and line height. Its other failures (no glyph with a 16-bit
/// code point, metrics that overflow the font's integer fields, a table
/// that cannot be written) are decided by these values alone: the clock
/// only fills the font's date fields, and the hash map the builder walks
/// only orders outline rectangles.
pub uninterp spec fn ttf_builds(glyphs: Seq<(u32, u16, u16, i16, i16, Seq<u8>)>, family_name: Seq<char>, line_height: u16) -> bool;

/// Builds TrueType font bytes through `bitmap2ttf::build_ttf` from the
/// request, with the default scale; a failure is returned as its message.
/// Claimed of it: it succeeds only when `ttf_builds` holds of the request,
/// and so only when some glyph has a code point in the 16-bit range, since
/// the builder maps no other. Left unsaid: that it succeeds wherever
/// `ttf_builds` holds (it also fails when the system clock reads a time
/// before 1970), and which bytes come out (the builder writes the current
/// time into the font and walks a hash map while collecting outlines).
#[verifier::external_body]
fn build_ttf_bytes(req: &TtfRequest) -> (r: Result<Vec<u8>, String>)
    ensures
        r is Ok ==> ttf_builds(glyph_views(req.glyphs@), req.family_name@, req.line_height),
        r is Ok ==> exists|i: int| 0 <= i < req.glyphs@.len() && #[trigger] req.glyphs@[i].codepoint <= 0xFFFF,
{
    let converted: Vec<bitmap2ttf::BitmapGlyph> = req.glyphs.iter().map(|g| bitmap2ttf::BitmapGlyph {
        codepoint: g.codepoint, width: g.width, height: g.height, offset_x: g.offset_x,
        offset_y: g.offset_y, advance_width: None, pixels: g.pixels.clone(),
    }).collect();
    let family_name = req.family_name.clone();
    let config = bitmap2ttf::FontConfig { family_name, line_height: req.line_height, ..Default::default() };
    bitmap2ttf::build_ttf(&converted, &config).map_err(|e| e.to_string())
}

/// Builds a TrueType font from a bitmap font: the request `ttf_request`
/// makes (its glyph bitmaps, the family name `family_name`, the font's
/// line height, at least 1) is handed to the builder. It succeeds only when
/// the builder builds a font from that request, which needs some glyph's
/// code point in the 16-bit range; a builder failure is returned as a
/// conversion error.
pub fn build_ttf_from_fnt(fnt: &FntFile, family_name: &str) -> (r: Result<Vec<u8>, Error>)
    ensures
        r is Ok ==> ttf_builds(font_glyph_views(*fnt), family_name@, font_line_height(*fnt)),
        r is Ok ==> exists|i: int|
            0 <= i < fnt.glyphs@.len() && #[trigger] glyph_codepoint(fnt.header.character_start, i) <= 0xFFFF,
        r matches Err(e) ==> e is Conversion,
{
    let req = ttf_request(fnt, family_name);
    match build_ttf_bytes(&req) {
        Ok(bytes) => {
            proof {
                let i = choose|i: int| 0 <= i < req.glyphs@.len() && #[trigger] req.glyphs@[i].codepoint <= 0xFFFF;
                assert(bitmap_of(req.glyphs@[i], *fnt, i));
            }
            Ok(bytes)
        },
        Err(msg) => Err(Error::Conversion(msg)),
    }
}

} // verus!
