//! Parser for animated bitmap files: `BMHD` (header), `BPAL` (palette) and
//! `BBMP` (frames, raw, run-length or LZHUF compressed) sections, closed by
//! an `END ` tag.
use crate::bytes::{first_zero, first_zero_from, tag_at, read_i16_le, read_u32_be, read_u32_le, spec_i16_of, spec_u16_le, spec_u32_be, spec_u32_le};
use crate::error::{parse_error, Error, Result};
use crate::text::{lossy_string, utf8_lossy};
use delharc::decode::{Decoder, Lh1Decoder};
use vstd::prelude::*;

verus! {

/// One decoded frame.
#[derive(Debug, Clone)]
pub struct GxaFrame {
    pub width: u16,
    pub height: u16,
    pub rgba: Vec<u8>,
}

/// Parsed animated bitmap file.
#[derive(Debug, Clone)]
pub struct GxaFile {
    pub title: String,
    pub frame_count: u16,
    pub frames: Vec<GxaFrame>,
}

/// Output of run-length decoding `c` from `cur` on, after `out` has been
/// produced, until `n` bytes are produced. A control byte with the high bit
/// set repeats the next byte `(ctrl & 0x7F) + 1` times; otherwise the next
/// `ctrl + 1` bytes are copied. Runs are cut at `n` bytes; `None` when the
/// stream ends early or a run is incomplete.
pub open spec fn rle_from(c: Seq<u8>, cur: int, out: Seq<u8>, n: int) -> Option<Seq<u8>>
    decreases c.len() - cur,
{
    if out.len() >= n {
        Some(out)
    } else if cur < 0 || cur >= c.len() {
        None
    } else {
        let ctrl = c[cur];
        let room = n - out.len();
        if ctrl >= 0x80 {
            if cur + 1 >= c.len() {
                None
            } else {
                let run = ctrl - 0x80 + 1;
                let take = if run < room { run } else { room };
                rle_from(c, cur + 2, out + Seq::new(take as nat, |i: int| c[cur + 1]), n)
            }
        } else {
            let run = ctrl + 1;
            if cur + 1 + run > c.len() {
                None
            } else {
                let take = if run < room { run } else { room };
                rle_from(c, cur + 1 + run, out + c.subrange(cur + 1, cur + 1 + take), n)
            }
        }
    }
}

/// Run-length decoding of `c` into `n` bytes.
pub open spec fn rle_decode(c: Seq<u8>, n: int) -> Option<Seq<u8>> {
    rle_from(c, 0, Seq::empty(), n)
}

/// Decodes a run-length compressed stream into `pixel_count` bytes.
pub fn decompress_rle(compressed: &[u8], pixel_count: usize) -> (r: Result<Vec<u8>>)
    ensures
        r is Ok <==> rle_decode(compressed@, pixel_count as int) is Some,
        r matches Ok(v) ==> v@ == rle_decode(compressed@, pixel_count as int)->Some_0 && v@.len()
            == pixel_count,
        r matches Err(e) ==> e is Parse,
{
    let n: usize = compressed.len();
    let mut out: Vec<u8> = Vec::new();
    let mut cur: usize = 0;
    while out.len() < pixel_count
        invariant
            n == compressed@.len(),
            cur <= n,
            out@.len() <= pixel_count,
            rle_decode(compressed@, pixel_count as int) == rle_from(
                compressed@,
                cur as int,
                out@,
                pixel_count as int,
            ),
        decreases n - cur,
    {
        if cur >= n {
            return Err(parse_error("GXA RLE compressed stream truncated"));
        }
        let ctrl: u8 = compressed[cur];
        let room: usize = pixel_count - out.len();
        let ghost before = out@;
        if ctrl >= 0x80 {
            if cur + 1 >= n {
                return Err(parse_error("GXA RLE repeat run missing value byte"));
            }
            let value: u8 = compressed[cur + 1];
            let run: usize = (ctrl - 0x80) as usize + 1;
            let take: usize = if run < room { run } else { room };
            let mut k: usize = 0;
            while k < take
                invariant
                    k <= take,
                    out@ =~= before + Seq::new(k as nat, |i: int| value),
                decreases take - k,
            {
                out.push(value);
                k += 1;
            }
            assert(value == compressed@[cur + 1]);
            assert(Seq::new(take as nat, |i: int| value) =~= Seq::new(take as nat, |i: int| compressed@[cur + 1]));
            cur = cur + 2;
        } else {
            let run: usize = ctrl as usize + 1;
            if run > n - (cur + 1) {
                return Err(parse_error("GXA RLE literal run exceeds compressed stream"));
            }
            let take: usize = if run < room { run } else { room };
            let mut k: usize = 0;
            while k < take
                invariant
                    n == compressed@.len(),
                    cur + 1 + take <= n,
                    k <= take,
                    out@ =~= before + compressed@.subrange(cur + 1, cur + 1 + k),
                decreases take - k,
            {
                out.push(compressed[cur + 1 + k]);
                k += 1;
            }
            cur = cur + 1 + run;
        }
    }
    Ok(out)
}

/// RGBA byte `k` of an indexed frame: index 0 is transparent black, others
/// take their palette colour at full opacity.
pub open spec fn gxa_rgba_byte(px: Seq<u8>, pal: Seq<Seq<u8>>, k: int) -> u8 {
    let idx = px[k / 4];
    if idx == 0 {
        0
    } else if k % 4 == 3 {
        255
    } else {
        pal[idx as int][k % 4]
    }
}

/// RGBA decoding of the first `count` pixels of `px`.
pub open spec fn gxa_rgba(px: Seq<u8>, pal: Seq<Seq<u8>>, count: int) -> Seq<u8> {
    Seq::new((4 * count) as nat, |k: int| gxa_rgba_byte(px, pal, k))
}

/// Views of the colours of a palette.
pub open spec fn gxa_palette_view(p: [[u8; 3]; 256]) -> Seq<Seq<u8>> {
    Seq::new(256, |i: int| p@[i]@)
}

proof fn lemma_quad(i: int)
    requires
        i >= 0,
    ensures
        (4 * i) / 4 == i,
        (4 * i) % 4 == 0,
        (4 * i + 1) / 4 == i,
        (4 * i + 1) % 4 == 1,
        (4 * i + 2) / 4 == i,
        (4 * i + 2) % 4 == 2,
        (4 * i + 3) / 4 == i,
        (4 * i + 3) % 4 == 3,
{
}

/// Converts the first `width * height` palette indices of `pixels` to RGBA.
pub fn decode_frame_rgba(width: usize, height: usize, pixels: &[u8], palette: &[[u8; 3]; 256]) -> (r:
    Result<Vec<u8>>)
    requires
        width * height <= usize::MAX ==> width * height * 4 <= usize::MAX,
    ensures
        r is Ok <==> width * height <= usize::MAX && pixels@.len() >= width * height,
        r matches Ok(v) ==> v@ == gxa_rgba(pixels@, gxa_palette_view(*palette), width * height),
        r matches Err(e) ==> e is Parse,
{
    let pixel_count: usize = match width.checked_mul(height) {
        Some(p) => p,
        None => return Err(parse_error("GXA width*height overflow")),
    };
    if pixels.len() < pixel_count {
        return Err(parse_error("GXA frame pixel data too small"));
    }
    let mut rgba: Vec<u8> = Vec::with_capacity(pixel_count * 4);
    let mut i: usize = 0;
    while i < pixel_count
        invariant
            pixel_count == width * height,
            pixel_count * 4 <= usize::MAX,
            pixels@.len() >= pixel_count,
            i <= pixel_count,
            rgba@ =~= Seq::new((4 * i) as nat, |k: int| gxa_rgba_byte(pixels@, gxa_palette_view(*palette), k)),
        decreases pixel_count - i,
    {
        let idx: u8 = pixels[i];
        if idx == 0 {
            rgba.push(0);
            rgba.push(0);
            rgba.push(0);
            rgba.push(0);
        } else {
            let c = palette[idx as usize];
            assert(gxa_palette_view(*palette)[idx as int] == c@);
            rgba.push(c[0]);
            rgba.push(c[1]);
            rgba.push(c[2]);
            rgba.push(255);
        }
        proof {
            lemma_quad(i as int);
        }
        i += 1;
    }
    Ok(rgba)
}

} // verus!

verus! {

/// Name for what delharc's `-lh1-` decoder produces when a fresh decoder over
/// `compressed` fills a buffer of `out_len` bytes; `None` when it fails.
pub uninterp spec fn lh1_decode(compressed: Seq<u8>, out_len: nat) -> Option<Seq<u8>>;

/// Decompresses LZHUF (`-lh1-`) data with `delharc::decode::Lh1Decoder`: a new
/// decoder over `compressed` fills an `out_len`-byte buffer through
/// `Decoder::fill_buffer`. Claimed of it: the outcome is a function of the two
/// arguments (the name above), and a success fills the whole buffer. What the
/// decoded bytes are is left to the name.
#[verifier::external_body]
fn lh1_decompress(compressed: &[u8], out_len: usize) -> (r: Option<Vec<u8>>)
    ensures
        match r {
            Some(v) => lh1_decode(compressed@, out_len as nat) == Some(v@),
            None => lh1_decode(compressed@, out_len as nat) is None,
        },
        r matches Some(v) ==> v@.len() == out_len,
{
    let mut decoder = Lh1Decoder::new(compressed);
    let mut output = vec![0u8; out_len];
    match decoder.fill_buffer(&mut output) {
        Ok(()) => Some(output),
        Err(_) => None,
    }
}

/// Decompresses an LZHUF stream into `pixel_count` bytes.
pub fn decompress_lzhuf(compressed: &[u8], pixel_count: usize) -> (r: Result<Vec<u8>>)
    ensures
        r is Ok <==> lh1_decode(compressed@, pixel_count as nat) is Some,
        r matches Ok(v) ==> lh1_decode(compressed@, pixel_count as nat) == Some(v@) && v@.len()
            == pixel_count,
        r matches Err(e) ==> e is Parse,
{
    match lh1_decompress(compressed, pixel_count) {
        Some(v) => Ok(v),
        None => Err(parse_error("GXA LZHUF decompression failed")),
    }
}

/// Abstract content of a frame.
pub struct GxaFrameView {
    pub width: u16,
    pub height: u16,
    pub rgba: Seq<u8>,
}

impl View for GxaFrame {
    type V = GxaFrameView;

    open spec fn view(&self) -> GxaFrameView {
        GxaFrameView { width: self.width, height: self.height, rgba: self.rgba@ }
    }
}

/// Views of a sequence of frames.
pub open spec fn gxa_frame_views(v: Seq<GxaFrame>) -> Seq<GxaFrameView> {
    v.map_values(|f: GxaFrame| f@)
}

/// Signed 16-bit field at `off` of `s`.
pub open spec fn sec_i16(s: Seq<u8>, off: int) -> int {
    spec_i16_of(spec_u16_le(s, off))
}

/// Palette indices of the frame whose 18-byte header is at `cur` in a
/// `BBMP` payload, with the offset just past its data: stored raw
/// (compression 0), run-length encoded (1) or LZHUF compressed (2), the
/// compressed forms preceded by their size (and, for LZHUF, the unpacked size).
pub open spec fn bbmp_pixels(s: Seq<u8>, cur: int, pc: int) -> Option<(Seq<u8>, int)> {
    let comp = sec_i16(s, cur + 10);
    if comp == 0 {
        if cur + 18 + pc > s.len() {
            None
        } else {
            Some((s.subrange(cur + 18, cur + 18 + pc), cur + 18 + pc))
        }
    } else if comp == 1 {
        if cur + 22 > s.len() {
            None
        } else {
            let e = cur + 22 + spec_u32_le(s, cur + 18);
            if e > s.len() {
                None
            } else {
                match rle_decode(s.subrange(cur + 22, e), pc) {
                    Some(p) => Some((p, e)),
                    None => None,
                }
            }
        }
    } else if comp == 2 {
        if cur + 26 > s.len() {
            None
        } else {
            let e = cur + 26 + spec_u32_le(s, cur + 18);
            if e > s.len() {
                None
            } else {
                match lh1_decode(s.subrange(cur + 26, e), pc as nat) {
                    Some(p) => Some((p, e)),
                    None => None,
                }
            }
        }
    } else {
        None
    }
}

/// The frame whose header is at `cur` in a `BBMP` payload, decoded with
/// `pal`, and the offset of the next frame; `None` when it is malformed.
pub open spec fn bbmp_frame(s: Seq<u8>, cur: int, pal: Seq<Seq<u8>>) -> Option<(GxaFrameView, int)> {
    if cur + 18 > s.len() {
        None
    } else {
        let w = sec_i16(s, cur + 2);
        let h = sec_i16(s, cur + 4);
        if w <= 0 || h <= 0 {
            None
        } else {
            match bbmp_pixels(s, cur, w * h) {
                Some((px, next)) => Some(
                    (GxaFrameView { width: w as u16, height: h as u16, rgba: gxa_rgba(px, pal, w * h) }, next),
                ),
                None => None,
            }
        }
    }
}

/// The `k` frames read from `cur` on in a `BBMP` payload.
pub open spec fn bbmp_frames(s: Seq<u8>, cur: int, k: nat, pal: Seq<Seq<u8>>) -> Option<Seq<GxaFrameView>>
    decreases k,
{
    if k == 0 {
        Some(Seq::empty())
    } else {
        match bbmp_frame(s, cur, pal) {
            Some((f, next)) => match bbmp_frames(s, next, (k - 1) as nat, pal) {
                Some(rest) => Some(seq![f] + rest),
                None => None,
            },
            None => None,
        }
    }
}

proof fn lemma_dims(w: int, h: int)
    requires
        0 < w < 0x8000,
        0 < h < 0x8000,
    ensures
        0 < w * h < 0x4000_0000,
{
    assert(0 < w * h < 0x4000_0000) by (nonlinear_arith)
        requires
            0 < w < 0x8000,
            0 < h < 0x8000,
    ;
}

/// Decodes the frame whose header is at `cur` in a `BBMP` payload.
fn parse_bbmp_frame(section: &[u8], cur: usize, palette: &[[u8; 3]; 256]) -> (r: Result<(GxaFrame, usize)>)
    ensures
        r is Ok <==> bbmp_frame(section@, cur as int, gxa_palette_view(*palette)) is Some,
        r matches Ok(t) ==> bbmp_frame(section@, cur as int, gxa_palette_view(*palette)) == Some(
            (t.0@, t.1 as int),
        ),
        r matches Err(e) ==> e is Parse,
{
    let n: usize = section.len();
    if n < 18 || cur > n - 18 {
        return Err(parse_error("GXA BBMP frame header out of bounds"));
    }
    let width_i16 = read_i16_le(section, cur + 2);
    let height_i16 = read_i16_le(section, cur + 4);
    if width_i16 <= 0 || height_i16 <= 0 {
        return Err(parse_error("GXA BBMP invalid frame dimensions"));
    }
    let width: usize = width_i16 as usize;
    let height: usize = height_i16 as usize;
    proof {
        lemma_dims(width as int, height as int);
    }
    let pixel_count: usize = width * height;
    let compression = read_i16_le(section, cur + 10);
    let ghost s = section@;
    let (pixels, next): (Vec<u8>, usize) = if compression == 0 {
        if pixel_count > n - (cur + 18) {
            return Err(parse_error("GXA BBMP raw payload out of bounds"));
        }
        (crate::bytes::copy_range(section, cur + 18, cur + 18 + pixel_count), cur + 18 + pixel_count)
    } else if compression == 1 {
        if n < 22 || cur > n - 22 {
            return Err(parse_error("GXA BBMP RLE header out of bounds"));
        }
        let comp_size = read_u32_le(section, cur + 18) as usize;
        if comp_size > n - (cur + 22) {
            return Err(parse_error("GXA BBMP RLE payload out of bounds"));
        }
        let end: usize = cur + 22 + comp_size;
        let px = decompress_rle(vstd::slice::slice_subrange(section, cur + 22, end), pixel_count)?;
        (px, end)
    } else if compression == 2 {
        if n < 26 || cur > n - 26 {
            return Err(parse_error("GXA BBMP LZHUF header out of bounds"));
        }
        let comp_size = read_u32_le(section, cur + 18) as usize;
        if comp_size > n - (cur + 26) {
            return Err(parse_error("GXA BBMP LZHUF payload out of bounds"));
        }
        let end: usize = cur + 26 + comp_size;
        let px = decompress_lzhuf(vstd::slice::slice_subrange(section, cur + 26, end), pixel_count)?;
        (px, end)
    } else {
        return Err(parse_error("GXA BBMP unsupported compression type"));
    };
    assert(bbmp_pixels(s, cur as int, pixel_count as int) == Some((pixels@, next as int)));
    let rgba = match decode_frame_rgba(width, height, pixels.as_slice(), palette) {
        Ok(v) => v,
        Err(e) => return Err(e),
    };
    Ok((GxaFrame { width: width as u16, height: height as u16, rgba }, next))
}

} // verus!

verus! {

/// Decodes the `frame_count` frames of a `BBMP` payload.
fn parse_bbmp_frames(section: &[u8], frame_count: u16, palette: &[[u8; 3]; 256]) -> (r: Result<
    Vec<GxaFrame>,
>)
    ensures
        r is Ok <==> bbmp_frames(section@, 0, frame_count as nat, gxa_palette_view(*palette)) is Some,
        r matches Ok(v) ==> gxa_frame_views(v@) == bbmp_frames(
            section@,
            0,
            frame_count as nat,
            gxa_palette_view(*palette),
        )->Some_0,
        r matches Err(e) ==> e is Parse,
{
    let ghost pal = gxa_palette_view(*palette);
    let mut frames: Vec<GxaFrame> = Vec::new();
    let mut cur: usize = 0;
    let mut k: u16 = 0;
    assert(gxa_frame_views(frames@) =~= Seq::<GxaFrameView>::empty());
    while k < frame_count
        invariant
            pal == gxa_palette_view(*palette),
            k <= frame_count,
            bbmp_frames(section@, 0, frame_count as nat, pal) == match bbmp_frames(
                section@,
                cur as int,
                (frame_count - k) as nat,
                pal,
            ) {
                Some(rest) => Some(gxa_frame_views(frames@) + rest),
                None => None::<Seq<GxaFrameView>>,
            },
        decreases frame_count - k,
    {
        let (frame, next) = parse_bbmp_frame(section, cur, palette)?;
        proof {
            let rest = bbmp_frames(section@, next as int, (frame_count - k - 1) as nat, pal);
            if rest is Some {
                assert(gxa_frame_views(frames@.push(frame)) + rest->Some_0 =~= gxa_frame_views(frames@) + (
                seq![frame@] + rest->Some_0));
            }
        }
        frames.push(frame);
        cur = next;
        k += 1;
    }
    assert(gxa_frame_views(frames@) + Seq::<GxaFrameView>::empty() =~= gxa_frame_views(frames@));
    Ok(frames)
}

/// Decoder state while reading sections.
pub struct GxaState {
    pub title: Seq<char>,
    pub frame_count: u16,
    pub palette: Seq<Seq<u8>>,
    pub has_palette: bool,
    pub frames: Seq<GxaFrameView>,
}

/// State before the first section: no title, no frames, an all-black palette.
pub open spec fn gxa_initial() -> GxaState {
    GxaState {
        title: Seq::empty(),
        frame_count: 0,
        palette: Seq::new(256, |i: int| seq![0u8, 0u8, 0u8]),
        has_palette: false,
        frames: Seq::empty(),
    }
}

/// Palette of a `BPAL` payload: 6-bit VGA levels shifted to 8 bits.
pub open spec fn bpal_colors(s: Seq<u8>) -> Seq<Seq<u8>> {
    Seq::new(256, |i: int| seq![s[3 * i] << 2u8, s[3 * i + 1] << 2u8, s[3 * i + 2] << 2u8])
}

/// Tags of the sections.
pub open spec fn tag_bmhd() -> Seq<u8> { seq![0x42u8, 0x4Du8, 0x48u8, 0x44u8] }
/// `BPAL`.
pub open spec fn tag_bpal() -> Seq<u8> { seq![0x42u8, 0x50u8, 0x41u8, 0x4Cu8] }
/// `BBMP`.
pub open spec fn tag_bbmp() -> Seq<u8> { seq![0x42u8, 0x42u8, 0x4Du8, 0x50u8] }
/// `END `.
pub open spec fn tag_end() -> Seq<u8> { seq![0x45u8, 0x4Eu8, 0x44u8, 0x20u8] }

/// State after a section tagged `tag` with payload `s`: `BMHD` sets the
/// title (its first 22 bytes up to a zero) and the frame count (a signed
/// field at 32, negative refused); `BPAL` sets the palette; `BBMP` decodes
/// all frames, which needs a frame count and a palette first; other sections
/// are skipped.
pub open spec fn section_step(tag: Seq<u8>, s: Seq<u8>, st: GxaState) -> Option<GxaState> {
    if tag == tag_bmhd() {
        if s.len() < 34 || sec_i16(s, 32) < 0 {
            None
        } else {
            let raw = s.subrange(0, 22);
            Some(
                GxaState {
                    title: utf8_lossy(raw.subrange(0, first_zero_from(raw, 0))),
                    frame_count: sec_i16(s, 32) as u16,
                    ..st
                },
            )
        }
    } else if tag == tag_bpal() {
        if s.len() < 768 {
            None
        } else {
            Some(GxaState { palette: bpal_colors(s), has_palette: true, ..st })
        }
    } else if tag == tag_bbmp() {
        if st.frame_count == 0 || !st.has_palette {
            None
        } else {
            match bbmp_frames(s, 0, st.frame_count as nat, st.palette) {
                Some(fs) => Some(GxaState { frames: fs, ..st }),
                None => None,
            }
        }
    } else {
        Some(st)
    }
}

/// State after the sections from `c` on: reading stops at an `END ` tag or
/// when fewer than four bytes are left. A section may not run past the data,
/// except a `BBMP` section, which is then cut at the end.
pub open spec fn gxa_from(d: Seq<u8>, c: int, st: GxaState) -> Option<GxaState>
    decreases d.len() - c,
{
    if c < 0 || c + 4 > d.len() {
        Some(st)
    } else if d.subrange(c, c + 4) == tag_end() {
        Some(st)
    } else if c + 8 > d.len() {
        None
    } else {
        let tag = d.subrange(c, c + 4);
        let s = c + 8;
        let len = spec_u32_be(d, c + 4);
        if s + len > d.len() && tag != tag_bbmp() {
            None
        } else {
            let end = if s + len > d.len() { d.len() as int } else { s + len };
            match section_step(tag, d.subrange(s, end), st) {
                Some(st2) => gxa_from(d, end, st2),
                None => None,
            }
        }
    }
}

} // verus!

verus! {

/// The state held by the decoder's variables.
pub open spec fn gxa_state_of(
    title: String,
    frame_count: u16,
    palette: [[u8; 3]; 256],
    has_palette: bool,
    frames: Seq<GxaFrame>,
) -> GxaState {
    GxaState {
        title: title@,
        frame_count,
        palette: gxa_palette_view(palette),
        has_palette,
        frames: gxa_frame_views(frames),
    }
}

fn bpal_palette(section: &[u8]) -> (p: [[u8; 3]; 256])
    requires
        section@.len() >= 768,
    ensures
        gxa_palette_view(p) == bpal_colors(section@),
{
    let mut palette = [[0u8; 3]; 256];
    let mut i: usize = 0;
    while i < 256
        invariant
            section@.len() >= 768,
            i <= 256,
            palette@.len() == 256,
            forall|k: int| 0 <= k < i ==> #[trigger] palette@[k]@ == bpal_colors(section@)[k],
        decreases 256 - i,
    {
        let off: usize = i * 3;
        let c = [section[off] << 2u8, section[off + 1] << 2u8, section[off + 2] << 2u8];
        assert(c@ =~= bpal_colors(section@)[i as int]);
        palette[i] = c;
        i += 1;
    }
    assert(gxa_palette_view(palette) =~= bpal_colors(section@));
    palette
}

/// Parses an animated bitmap file: sections are read in order until an
/// `END ` tag, and the file must yield at least one frame.
pub fn parse_gxa_file(data: &[u8]) -> (r: Result<GxaFile>)
    ensures
        r is Ok <==> (gxa_from(data@, 0, gxa_initial()) matches Some(st) && st.frames.len() > 0),
        r matches Ok(f) ==> {
            let st = gxa_from(data@, 0, gxa_initial())->Some_0;
            &&& f.title@ == st.title
            &&& f.frame_count == st.frame_count
            &&& gxa_frame_views(f.frames@) == st.frames
        },
        r matches Err(e) ==> e is Parse,
{
    let n: usize = data.len();
    let mut cursor: usize = 0;
    let mut title = String::new();
    let mut frame_count: u16 = 0;
    let black = [0u8; 3];
    let mut palette = [black; 256];
    let mut has_palette = false;
    let mut decoded_frames: Vec<GxaFrame> = Vec::new();
    proof {
        assert(black@ =~= seq![0u8, 0u8, 0u8]);
        assert forall|i: int| 0 <= i < 256 implies #[trigger] gxa_palette_view(palette)[i] == gxa_initial().palette[i] by {
            assert(palette@[i] == black);
        }
        assert(gxa_palette_view(palette) =~= gxa_initial().palette);
        assert(gxa_frame_views(decoded_frames@) =~= Seq::<GxaFrameView>::empty());
        assert(title@ =~= Seq::<char>::empty());
    }
    loop
        invariant
            n == data@.len(),
            cursor <= n,
            gxa_from(data@, 0, gxa_initial()) == gxa_from(
                data@,
                cursor as int,
                gxa_state_of(title, frame_count, palette, has_palette, decoded_frames@),
            ),
        decreases n - cursor,
    {
        if n < 4 || cursor > n - 4 || tag_at(data, cursor, 0x45, 0x4E, 0x44, 0x20) {
            return finish_gxa(title, frame_count, decoded_frames);
        }
        if n < 8 || cursor > n - 8 {
            return Err(parse_error("GXA section length out of bounds"));
        }
        let is_bbmp = tag_at(data, cursor, 0x42, 0x42, 0x4D, 0x50);
        let section_len = read_u32_be(data, cursor + 4) as usize;
        let start: usize = cursor + 8;
        let end: usize = if section_len > n - start {
            if is_bbmp {
                n
            } else {
                return Err(parse_error("GXA section out of bounds"));
            }
        } else {
            start + section_len
        };
        let section = vstd::slice::slice_subrange(data, start, end);
        let ghost tag = data@.subrange(cursor as int, cursor + 4);
        let ghost st = gxa_state_of(title, frame_count, palette, has_palette, decoded_frames@);
        if tag_at(data, cursor, 0x42, 0x4D, 0x48, 0x44) {
            if section.len() < 34 {
                return Err(parse_error("GXA BMHD too small"));
            }
            let raw_title = vstd::slice::slice_subrange(section, 0, 22);
            let title_end = first_zero(raw_title);
            let count = read_i16_le(section, 32);
            if count < 0 {
                return Err(parse_error("GXA BMHD negative frame count"));
            }
            title = lossy_string(vstd::slice::slice_subrange(raw_title, 0, title_end));
            frame_count = count as u16;
        } else if tag_at(data, cursor, 0x42, 0x50, 0x41, 0x4C) {
            if section.len() < 768 {
                return Err(parse_error("GXA BPAL too small"));
            }
            palette = bpal_palette(section);
            has_palette = true;
        } else if is_bbmp {
            if frame_count == 0 {
                return Err(parse_error("GXA BBMP encountered before BMHD with a frame count"));
            }
            if !has_palette {
                return Err(parse_error("GXA BBMP encountered before BPAL palette"));
            }
            decoded_frames = parse_bbmp_frames(section, frame_count, &palette)?;
        }
        assert(section_step(tag, section@, st) == Some(
            gxa_state_of(title, frame_count, palette, has_palette, decoded_frames@),
        ));
        cursor = end;
    }
}

fn finish_gxa(title: String, frame_count: u16, frames: Vec<GxaFrame>) -> (r: Result<GxaFile>)
    ensures
        r is Ok <==> frames@.len() > 0,
        r matches Ok(f) ==> f.title@ == title@ && f.frame_count == frame_count && gxa_frame_views(
            f.frames@,
        ) == gxa_frame_views(frames@),
        r matches Err(e) ==> e is Parse,
{
    if frames.len() == 0 {
        return Err(parse_error("GXA contains no decoded frames"));
    }
    Ok(GxaFile { title, frame_count, frames })
}

} // verus!
