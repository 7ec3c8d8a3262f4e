//! Parser for texture archives: a sequence of named image records, each made
//! of tagged chunks (`IFHD`, `BHDR`, `CMAP`, `DATA`), optionally followed by an
//! `END ` marker.
use crate::bytes::{read_i16_le, read_i32_le, read_u16_le, read_u32_be, read_u32_le, spec_i16_of, spec_i32_of, spec_u16_le, spec_u32_be, spec_u32_le};
use crate::error::{parse_error, Error, Result};
use crate::import::palette::Palette;
use crate::text::{nul_trimmed_string, trim_nul, utf8_lossy};
use vstd::prelude::*;
use vstd::utf8::{encode_utf8, is_char_boundary};

verus! {

/// Parsed image entry of a texture archive.
#[derive(Debug, Clone)]
pub struct BsiImage {
    pub name: String,
    pub image_index: u16,
    pub width: u16,
    pub height: u16,
    pub x_offset: i16,
    pub y_offset: i16,
    pub frame_count: u16,
    /// Animation frame duration in milliseconds (`BHDR` offset 16).
    pub anim_delay: i16,
    /// `8.8` fixed-point texture coordinate scale factor (`BHDR` offsets 22–23).
    pub tex_scale: u16,
    /// Pixel data encoding mode (`BHDR` offset 24): `0` raw, `4` animated offset table.
    pub data_encoding: i16,
    pub is_animated: bool,
    pub palette: Option<Vec<[u8; 3]>>,
    pub pixel_data: Vec<u8>,
    /// Animation frames beyond frame 0; empty for static images.
    pub extra_frames: Vec<Vec<u8>>,
}

/// Parsed texture archive.
#[derive(Debug, Clone)]
pub struct BsiFile {
    pub images: Vec<BsiImage>,
}

/// Palette index of pixel `i`, or 0 past the end of the pixel data.
pub open spec fn pixel_index(px: Seq<u8>, i: int) -> u8 {
    if 0 <= i < px.len() {
        px[i]
    } else {
        0
    }
}

/// Number of pixels of the image.
pub open spec fn pixel_count(img: &BsiImage) -> int {
    img.width * img.height
}

/// Every non-transparent pixel of `px` names an entry of the embedded palette.
pub open spec fn embedded_palette_covers(img: &BsiImage, px: Seq<u8>) -> bool {
    img.palette matches Some(p) ==> forall|i: int|
        0 <= i < pixel_count(img) ==> #[trigger] pixel_index(px, i) == 0 || (pixel_index(px, i) as int)
            < p@.len()
}

/// What decoding `px` to RGBA needs: the output size fits in memory and, when
/// no external palette is given, the embedded palette covers every pixel.
pub open spec fn rgba_decodable(img: &BsiImage, px: Seq<u8>, palette: Option<&Palette>) -> bool {
    &&& img.width * img.height * 4 <= usize::MAX
    &&& palette is None ==> embedded_palette_covers(img, px)
}

/// Byte `k` of the RGBA decoding of `px`: index 0 is transparent black; other
/// indices take their colour from the external palette, else from the
/// embedded one, else stand for a grey level.
pub open spec fn rgba_byte(img: &BsiImage, px: Seq<u8>, palette: Option<&Palette>, k: int) -> u8 {
    let idx = pixel_index(px, k / 4);
    let c = k % 4;
    if idx == 0 {
        0
    } else if c == 3 {
        255
    } else {
        match palette {
            Some(p) => p.color(idx as int)[c],
            None => match img.palette {
                Some(e) => e@[idx as int]@[c],
                None => idx,
            },
        }
    }
}

/// RGBA decoding of `px` for the image's dimensions.
pub open spec fn rgba_of(img: &BsiImage, px: Seq<u8>, palette: Option<&Palette>) -> Seq<u8> {
    Seq::new((pixel_count(img) * 4) as nat, |k: int| rgba_byte(img, px, palette, k))
}

proof fn lemma_quad_index(i: int)
    requires
        i >= 0,
    ensures
        (4 * i) / 4 == i,
        (4 * i) % 4 == 0,
        (4 * i + 1) / 4 == i,
        (4 * i + 1) % 4 == 1,
        (4 * i + 2) / 4 == i,
        (4 * i + 2) % 4 == 2,
        (4 * i + 3) / 4 == i,
        (4 * i + 3) % 4 == 3,
{
}

impl BsiImage {
    /// Decodes `pixels` to RGBA with this image's dimensions.
    fn decode_pixels_rgba(&self, pixels: &[u8], palette: Option<&Palette>) -> (r: Vec<u8>)
        requires
            rgba_decodable(self, pixels@, palette),
        ensures
            r@ == rgba_of(self, pixels@, palette),
    {
        let count: usize = (self.width as usize) * (self.height as usize);
        let mut out: Vec<u8> = Vec::with_capacity(count * 4);
        let mut i: usize = 0;
        while i < count
            invariant
                count == pixel_count(self),
                count * 4 <= usize::MAX,
                rgba_decodable(self, pixels@, palette),
                i <= count,
                out@ =~= Seq::new((4 * i) as nat, |k: int| rgba_byte(self, pixels@, palette, k)),
            decreases count - i,
        {
            let idx: u8 = if i < pixels.len() { pixels[i] } else { 0 };
            assert(idx == pixel_index(pixels@, i as int));
            let ghost before = out@;
            if idx == 0 {
                out.push(0);
                out.push(0);
                out.push(0);
                out.push(0);
            } else {
                match palette {
                    Some(p) => {
                        let color = p.colors[idx as usize];
                        out.push(color[0]);
                        out.push(color[1]);
                        out.push(color[2]);
                    },
                    None => match &self.palette {
                        Some(e) => {
                            let color = e[idx as usize];
                            out.push(color[0]);
                            out.push(color[1]);
                            out.push(color[2]);
                        },
                        None => {
                            out.push(idx);
                            out.push(idx);
                            out.push(idx);
                        },
                    },
                }
                out.push(255);
            }
            proof {
                lemma_quad_index(i as int);
            }
            i += 1;
        }
        out
    }

    /// Decodes frame 0 to RGBA using an external palette, else the embedded one.
    pub fn decode_rgba(&self, palette: Option<&Palette>) -> (r: Vec<u8>)
        requires
            rgba_decodable(self, self.pixel_data@, palette),
        ensures
            r@ == rgba_of(self, self.pixel_data@, palette),
    {
        self.decode_pixels_rgba(self.pixel_data.as_slice(), palette)
    }

    /// Decodes animation frame `frame` to RGBA: frame 0 is `pixel_data`,
    /// frames 1.. are `extra_frames`; `None` past the last frame.
    pub fn decode_frame_rgba(&self, frame: usize, palette: Option<&Palette>) -> (r: Option<Vec<u8>>)
        requires
            frame == 0 ==> rgba_decodable(self, self.pixel_data@, palette),
            0 < frame <= self.extra_frames@.len() ==> rgba_decodable(
                self,
                self.extra_frames@[frame - 1]@,
                palette,
            ),
        ensures
            r is Some <==> frame <= self.extra_frames@.len(),
            r matches Some(v) ==> v@ == rgba_of(
                self,
                if frame == 0 {
                    self.pixel_data@
                } else {
                    self.extra_frames@[frame - 1]@
                },
                palette,
            ),
    {
        if frame == 0 {
            Some(self.decode_pixels_rgba(self.pixel_data.as_slice(), palette))
        } else if frame - 1 < self.extra_frames.len() {
            Some(self.decode_pixels_rgba(self.extra_frames[frame - 1].as_slice(), palette))
        } else {
            None
        }
    }
}

} // verus!

verus! {

/// Value of a sequence of decimal digits.
pub open spec fn decimal_value(b: Seq<u8>) -> int
    decreases b.len(),
{
    if b.len() == 0 {
        0
    } else {
        decimal_value(b.drop_last()) * 10 + (b.last() - 0x30)
    }
}

/// Every byte is an ASCII decimal digit.
pub open spec fn all_decimal_digits(b: Seq<u8>) -> bool {
    forall|i: int| 0 <= i < b.len() ==> 0x30 <= #[trigger] b[i] <= 0x39
}

/// Text `b` read as an unsigned 16-bit decimal number: an optional leading
/// `+`, then one or more digits, with a value below 65536.
pub open spec fn parse_u16_decimal(b: Seq<u8>) -> Option<u16> {
    let digits = if b.len() >= 2 && b[0] == 0x2B {
        b.drop_first()
    } else {
        b
    };
    if digits.len() == 0 || !all_decimal_digits(digits) || decimal_value(digits) > 0xFFFF {
        None
    } else {
        Some(decimal_value(digits) as u16)
    }
}

/// Parses an unsigned 16-bit decimal number as `str::parse::<u16>` does.
pub fn parse_decimal_u16(b: &[u8]) -> (r: Option<u16>)
    ensures
        r == parse_u16_decimal(b@),
{
    let n: usize = b.len();
    let start: usize = if n >= 2 && b[0] == 0x2B { 1 } else { 0 };
    let ghost digits = b@.subrange(start as int, n as int);
    assert(digits =~= (if n >= 2 && b@[0] == 0x2B { b@.drop_first() } else { b@ }));
    if start == n {
        return None;
    }
    let mut acc: u32 = 0;
    let mut i: usize = start;
    while i < n
        invariant
            n == b@.len(),
            start <= i <= n,
            digits == b@.subrange(start as int, n as int),
            digits == (if n >= 2 && b@[0] == 0x2B { b@.drop_first() } else { b@ }),
            all_decimal_digits(b@.subrange(start as int, i as int)),
            acc == if decimal_value(b@.subrange(start as int, i as int)) >= 0x10000 {
                0x10000
            } else {
                decimal_value(b@.subrange(start as int, i as int))
            },
        decreases n - i,
    {
        let c = b[i];
        if c < 0x30 || c > 0x39 {
            assert(!all_decimal_digits(digits)) by {
                assert(digits[i - start] == c);
            }
            return None;
        }
        proof {
            let p = b@.subrange(start as int, i + 1);
            assert(p.drop_last() =~= b@.subrange(start as int, i as int));
            assert(decimal_value(p) == decimal_value(p.drop_last()) * 10 + (c - 0x30));
            assert forall|k: int| 0 <= k < p.len() implies 0x30 <= #[trigger] p[k] <= 0x39 by {
                if k < p.len() - 1 {
                    assert(p[k] == b@.subrange(start as int, i as int)[k]);
                }
            }
        }
        let d: u32 = (c - 0x30) as u32;
        acc = if acc >= 0x10000 {
            0x10000
        } else if acc * 10 + d >= 0x10000 {
            0x10000
        } else {
            acc * 10 + d
        };
        i += 1;
    }
    if acc >= 0x10000 {
        None
    } else {
        Some(acc as u16)
    }
}

/// Image index encoded in a record name: the number after its first three
/// bytes, for names of at least six bytes; 0 otherwise or when that is not a
/// number.
pub open spec fn name_image_index(name: Seq<char>) -> u16 {
    let b = encode_utf8(name);
    if b.len() >= 6 {
        match parse_u16_decimal(b.subrange(3, b.len() as int)) {
            Some(v) => v,
            None => 0,
        }
    } else {
        0
    }
}

/// A name of at least six bytes can be cut after its third byte.
pub open spec fn name_index_sliceable(name: Seq<char>) -> bool {
    encode_utf8(name).len() >= 6 ==> is_char_boundary(encode_utf8(name), 3)
}

/// Reads the image index from a record name.
pub fn image_index_of(name: &str) -> (r: u16)
    requires
        name_index_sliceable(name@),
    ensures
        r == name_image_index(name@),
{
    let b: &[u8] = name.as_bytes();
    if b.len() >= 6 {
        match parse_decimal_u16(vstd::slice::slice_subrange(b, 3, b.len())) {
            Some(v) => v,
            None => 0,
        }
    } else {
        0
    }
}

} // verus!

verus! {

/// All bytes are zero.
pub open spec fn all_zero(s: Seq<u8>) -> bool {
    forall|i: int| 0 <= i < s.len() ==> #[trigger] s[i] == 0
}

/// A record starts at `pos`: its 13-byte header fits and its 9-byte name is not all zero.
pub open spec fn bsi_has_record(d: Seq<u8>, pos: int) -> bool {
    0 <= pos && pos + 13 <= d.len() && !all_zero(d.subrange(pos, pos + 9))
}

/// End of the record whose header is at `pos`.
pub open spec fn bsi_record_end(d: Seq<u8>, pos: int) -> int {
    pos + 13 + spec_u32_le(d, pos + 9)
}

/// Name of the record whose header is at `pos`: its 9 name bytes without
/// their zero padding, decoded as UTF-8 with replacement characters.
pub open spec fn bsi_name(d: Seq<u8>, pos: int) -> Seq<char> {
    utf8_lossy(trim_nul(d.subrange(pos, pos + 9)))
}

/// Reads the record header at `pos`: `None` at the end of the records,
/// otherwise the name and the byte range of the record body.
fn parse_record_header(data: &[u8], pos: usize) -> (r: Result<Option<(String, usize, usize)>>)
    ensures
        r matches Ok(None) <==> !bsi_has_record(data@, pos as int),
        r is Err <==> bsi_has_record(data@, pos as int) && bsi_record_end(data@, pos as int)
            > data@.len(),
        r matches Ok(Some(t)) ==> t.0@ == bsi_name(data@, pos as int) && t.1 == pos + 13 && t.2
            == bsi_record_end(data@, pos as int),
        r matches Err(e) ==> e is Parse,
{
    let n: usize = data.len();
    if n < 13 || pos > n - 13 {
        return Ok(None);
    }
    let mut k: usize = 0;
    while k < 9 && data[pos + k] == 0
        invariant
            pos + 13 <= n == data@.len(),
            k <= 9,
            forall|j: int| 0 <= j < k ==> #[trigger] data@.subrange(pos as int, pos + 9)[j] == 0,
        decreases 9 - k,
    {
        k += 1;
    }
    if k < 9 {
        assert(data@.subrange(pos as int, pos + 9)[k as int] == data@[pos + k]);
    }
    if k == 9 {
        assert(all_zero(data@.subrange(pos as int, pos + 9)));
        return Ok(None);
    }
    let name = nul_trimmed_string(vstd::slice::slice_subrange(data, pos, pos + 9));
    let record_size = read_u32_le(data, pos + 9) as usize;
    if record_size > n - (pos + 13) {
        return Err(parse_error("BSI record extends past end of data"));
    }
    Ok(Some((name, pos + 13, pos + 13 + record_size)))
}

/// Chunks found in a record: whether it is animated and the byte ranges of
/// the last `BHDR`, `CMAP` and `DATA` chunk payloads.
#[derive(Clone, Copy)]
pub struct RecordChunks {
    pub is_animated: bool,
    pub bhdr: Option<(usize, usize)>,
    pub cmap: Option<(usize, usize)>,
    pub data: Option<(usize, usize)>,
}

/// Every recorded payload range lies within `n` bytes.
pub open spec fn chunks_in_bounds(st: RecordChunks, n: int) -> bool {
    &&& (st.bhdr matches Some(r) ==> r.0 <= r.1 <= n)
    &&& (st.cmap matches Some(r) ==> r.0 <= r.1 <= n)
    &&& (st.data matches Some(r) ==> r.0 <= r.1 <= n)
}

/// Chunks before any has been read.
pub open spec fn no_chunks() -> RecordChunks {
    RecordChunks { is_animated: false, bhdr: None, cmap: None, data: None }
}

/// Tag `END `.
pub open spec fn tag_end() -> Seq<u8> {
    seq![0x45u8, 0x4Eu8, 0x44u8, 0x20u8]
}

/// `st` after reading a chunk tagged `tag` whose payload is `d[a..b]`.
pub open spec fn chunk_update(st: RecordChunks, tag: Seq<u8>, a: usize, b: usize) -> RecordChunks {
    if tag == seq![0x49u8, 0x46u8, 0x48u8, 0x44u8] {
        RecordChunks { is_animated: true, ..st }
    } else if tag == seq![0x42u8, 0x48u8, 0x44u8, 0x52u8] {
        RecordChunks { bhdr: Some((a, b)), ..st }
    } else if tag == seq![0x43u8, 0x4Du8, 0x41u8, 0x50u8] {
        RecordChunks { cmap: Some((a, b)), ..st }
    } else if tag == seq![0x44u8, 0x41u8, 0x54u8, 0x41u8] {
        RecordChunks { data: Some((a, b)), ..st }
    } else {
        st
    }
}

/// The chunks read from `sub` up to the record end `end`, starting from `st`:
/// reading stops at an `END ` tag, at a header that does not fit in the data,
/// or when fewer than four bytes of the record are left. A chunk whose
/// payload runs past the data is skipped; `None` when a payload end exceeds
/// the address space.
pub open spec fn chunks_from(d: Seq<u8>, sub: int, end: int, st: RecordChunks) -> Option<RecordChunks>
    decreases usize::MAX - sub,
{
    if sub < 0 || sub + 4 > end {
        Some(st)
    } else if d.subrange(sub, sub + 4) == tag_end() {
        Some(st)
    } else if sub + 8 > d.len() {
        Some(st)
    } else {
        let pe = sub + 8 + spec_u32_be(d, sub + 4);
        if pe > usize::MAX {
            None
        } else {
            chunks_from(
                d,
                pe,
                end,
                if pe <= d.len() {
                    chunk_update(st, d.subrange(sub, sub + 4), (sub + 8) as usize, pe as usize)
                } else {
                    st
                },
            )
        }
    }
}

fn read_tag(data: &[u8], c: usize) -> (t: [u8; 4])
    requires
        c + 4 <= data@.len(),
    ensures
        t@ == data@.subrange(c as int, c + 4),
{
    let t = [data[c], data[c + 1], data[c + 2], data[c + 3]];
    assert(t@ =~= data@.subrange(c as int, c + 4));
    t
}

fn tag_eq(t: &[u8; 4], a: u8, b: u8, c: u8, e: u8) -> (r: bool)
    ensures
        r == (t@ == seq![a, b, c, e]),
{
    let r = t[0] == a && t[1] == b && t[2] == c && t[3] == e;
    assert(r ==> t@ =~= seq![a, b, c, e]);
    assert(t@ == seq![a, b, c, e] ==> t@[0] == a && t@[1] == b && t@[2] == c && t@[3] == e);
    r
}

/// Walks the chunks of the record body `data[record_start..record_end]`.
fn parse_record_chunks(data: &[u8], record_start: usize, record_end: usize) -> (r: Result<RecordChunks>)
    requires
        record_start <= record_end <= data@.len(),
    ensures
        r is Ok <==> chunks_from(data@, record_start as int, record_end as int, no_chunks()) is Some,
        r matches Ok(c) ==> c == chunks_from(data@, record_start as int, record_end as int, no_chunks())->Some_0
            && chunks_in_bounds(c, data@.len() as int),
        r matches Err(e) ==> e is Parse,
{
    let n: usize = data.len();
    let mut st = RecordChunks { is_animated: false, bhdr: None, cmap: None, data: None };
    let mut sub: usize = record_start;
    loop
        invariant
            record_end <= n == data@.len(),
            chunks_in_bounds(st, n as int),
            chunks_from(data@, record_start as int, record_end as int, no_chunks()) == chunks_from(
                data@,
                sub as int,
                record_end as int,
                st,
            ),
        decreases usize::MAX - sub,
    {
        if record_end < 4 || sub > record_end - 4 {
            return Ok(st);
        }
        let tag = read_tag(data, sub);
        if tag_eq(&tag, 0x45, 0x4E, 0x44, 0x20) {
            return Ok(st);
        }
        if n < 8 || sub > n - 8 {
            return Ok(st);
        }
        let payload_size = read_u32_be(data, sub + 4) as usize;
        let payload_start: usize = sub + 8;
        if payload_size > usize::MAX - payload_start {
            return Err(parse_error("BSI subchunk payload end overflow"));
        }
        let payload_end: usize = payload_start + payload_size;
        if payload_end <= n {
            if tag_eq(&tag, 0x49, 0x46, 0x48, 0x44) {
                st.is_animated = true;
            } else if tag_eq(&tag, 0x42, 0x48, 0x44, 0x52) {
                st.bhdr = Some((payload_start, payload_end));
            } else if tag_eq(&tag, 0x43, 0x4D, 0x41, 0x50) {
                st.cmap = Some((payload_start, payload_end));
            } else if tag_eq(&tag, 0x44, 0x41, 0x54, 0x41) {
                st.data = Some((payload_start, payload_end));
            }
        }
        sub = payload_end;
    }
}

} // verus!

verus! {

/// A signed 16-bit value clamped below at 0.
pub open spec fn non_negative(v: i16) -> u16 {
    if v < 0 {
        0
    } else {
        v as u16
    }
}

fn non_negative_i16_to_u16(value: i16) -> (r: u16)
    ensures
        r == non_negative(value),
{
    if value < 0 {
        0
    } else {
        value as u16
    }
}

/// Header fields of an image: x and y offsets, width, height, frame count,
/// animation delay, texture scale and data encoding.
pub type BhdrFields = (i16, i16, u16, u16, u16, i16, u16, i16);

/// Signed 16-bit field at `off` of `b`.
pub open spec fn bhdr_i16(b: Seq<u8>, off: int) -> i16 {
    spec_i16_of(spec_u16_le(b, off)) as i16
}

/// Header fields stored in a `BHDR` payload: 26 bytes give all fields, 16
/// bytes the first five, and otherwise defaults apply. The frame count is at
/// least 1 and negative sizes read as 0.
pub open spec fn bhdr_fields_of(bhdr: Option<Seq<u8>>) -> BhdrFields {
    match bhdr {
        Some(b) if b.len() >= 16 => (
            bhdr_i16(b, 0),
            bhdr_i16(b, 2),
            non_negative(bhdr_i16(b, 4)),
            non_negative(bhdr_i16(b, 6)),
            non_negative(if bhdr_i16(b, 14) < 1 { 1 } else { bhdr_i16(b, 14) }),
            if b.len() >= 26 { bhdr_i16(b, 16) } else { 0 },
            if b.len() >= 26 { spec_u16_le(b, 22) as u16 } else { 0 },
            if b.len() >= 26 { bhdr_i16(b, 24) } else { 0 },
        ),
        _ => (0, 0, 0, 0, 1, 0, 0, 0),
    }
}

fn parse_bhdr_fields(bhdr_data: Option<&[u8]>) -> (r: BhdrFields)
    ensures
        r == bhdr_fields_of(
            match bhdr_data {
                Some(b) => Some(b@),
                None => None,
            },
        ),
{
    if let Some(bhdr) = bhdr_data {
        if bhdr.len() >= 16 {
            let frames = read_i16_le(bhdr, 14);
            let frame_count = non_negative_i16_to_u16(if frames < 1 { 1 } else { frames });
            let (anim_delay, tex_scale, data_encoding) = if bhdr.len() >= 26 {
                (read_i16_le(bhdr, 16), read_u16_le(bhdr, 22), read_i16_le(bhdr, 24))
            } else {
                (0, 0, 0)
            };
            return (
                read_i16_le(bhdr, 0),
                read_i16_le(bhdr, 2),
                non_negative_i16_to_u16(read_i16_le(bhdr, 4)),
                non_negative_i16_to_u16(read_i16_le(bhdr, 6)),
                frame_count,
                anim_delay,
                tex_scale,
                data_encoding,
            );
        }
    }
    (0, 0, 0, 0, 1, 0, 0, 0)
}

/// The 256 colours of a `CMAP` payload of at least 768 bytes.
pub open spec fn cmap_colors(c: Seq<u8>) -> Seq<Seq<u8>> {
    Seq::new(256, |i: int| seq![c[3 * i], c[3 * i + 1], c[3 * i + 2]])
}

/// Views of the colours of an embedded palette.
pub open spec fn palette_views(p: Seq<[u8; 3]>) -> Seq<Seq<u8>> {
    p.map_values(|c: [u8; 3]| c@)
}

fn parse_embedded_palette(cmap_data: Option<&[u8]>) -> (r: Option<Vec<[u8; 3]>>)
    ensures
        r is Some <==> (cmap_data matches Some(c) && c@.len() >= 768),
        r matches Some(p) ==> palette_views(p@) == cmap_colors(cmap_data->Some_0@),
{
    match cmap_data {
        Some(data) => {
            if data.len() < 768 {
                return None;
            }
            let mut palette: Vec<[u8; 3]> = Vec::with_capacity(256);
            let mut i: usize = 0;
            while i < 256
                invariant
                    data@.len() >= 768,
                    i <= 256,
                    palette_views(palette@) =~= cmap_colors(data@).take(i as int),
                decreases 256 - i,
            {
                let c = [data[i * 3], data[i * 3 + 1], data[i * 3 + 2]];
                assert(c@ =~= cmap_colors(data@)[i as int]);
                let ghost before = palette@;
                palette.push(c);
                assert(palette_views(palette@) =~= palette_views(before).push(c@));
                assert(cmap_colors(data@).take(i + 1) =~= cmap_colors(data@).take(i as int).push(c@));
                i += 1;
            }
            assert(cmap_colors(data@).take(256) =~= cmap_colors(data@));
            Some(palette)
        },
        None => None,
    }
}

} // verus!

verus! {

/// Start of row `y` of frame `f` in animated pixel data: entry `f * h + y` of
/// the leading table of 32-bit offsets, negative values read as 0.
pub open spec fn row_offset(pd: Seq<u8>, h: int, f: int, y: int) -> int {
    let v = spec_i32_of(spec_u32_le(pd, 4 * (f * h + y)));
    if v < 0 {
        0
    } else {
        v
    }
}

/// Row `y` of frame `f`: `w` bytes at its offset, or zeros when they run past the data.
pub open spec fn frame_row(pd: Seq<u8>, w: int, h: int, f: int, y: int) -> Seq<u8> {
    let o = row_offset(pd, h, f, y);
    if o + w <= pd.len() {
        pd.subrange(o, o + w)
    } else {
        Seq::new(w as nat, |i: int| 0u8)
    }
}

/// The first `y` rows of frame `f`, one after the other.
pub open spec fn frame_rows(pd: Seq<u8>, w: int, h: int, f: int, y: int) -> Seq<u8>
    decreases y,
{
    if y <= 0 {
        Seq::empty()
    } else {
        frame_rows(pd, w, h, f, y - 1) + frame_row(pd, w, h, f, y - 1)
    }
}

/// Frame 0 and the further frames of an image. Images with one frame keep
/// their pixel data; animated images whose offset table does not fit, or
/// that have no area, have no pixels; otherwise every frame is assembled row
/// by row through the offset table.
pub open spec fn animated_frames(w: u16, h: u16, fc: u16, pd: Seq<u8>) -> (Seq<u8>, Seq<Seq<u8>>) {
    if fc <= 1 {
        (pd, Seq::empty())
    } else if w == 0 || h == 0 || pd.len() < h * fc * 4 {
        (Seq::empty(), Seq::empty())
    } else {
        (
            frame_rows(pd, w as int, h as int, 0, h as int),
            Seq::new((fc - 1) as nat, |i: int| frame_rows(pd, w as int, h as int, i + 1, h as int)),
        )
    }
}

/// Views of a sequence of frames.
pub open spec fn frame_views(v: Seq<Vec<u8>>) -> Seq<Seq<u8>> {
    v.map_values(|x: Vec<u8>| x@)
}

proof fn lemma_table_entry(f: int, fc: int, h: int, y: int)
    requires
        0 <= f < fc,
        0 <= y < h,
    ensures
        0 <= f * h + y,
        f * h + y + 1 <= fc * h,
{
    assert(f * h + y + 1 <= fc * h) by (nonlinear_arith)
        requires
            0 <= f < fc,
            0 <= y < h,
    ;
    assert(0 <= f * h) by (nonlinear_arith)
        requires
            0 <= f,
            0 <= h,
    ;
}

fn decode_frame(pd: &[u8], w: usize, h: usize, fc: usize, f: usize) -> (r: Vec<u8>)
    requires
        0 < w <= 0xFFFF,
        0 < h <= 0xFFFF,
        f < fc <= 0xFFFF,
        pd@.len() >= h * fc * 4,
    ensures
        r@ == frame_rows(pd@, w as int, h as int, f as int, h as int),
{
    let n: usize = pd.len();
    let mut buf: Vec<u8> = Vec::new();
    let mut y: usize = 0;
    while y < h
        invariant
            n == pd@.len() >= h * fc * 4,
            0 < w <= 0xFFFF,
            0 < h <= 0xFFFF,
            f < fc <= 0xFFFF,
            y <= h,
            buf@ == frame_rows(pd@, w as int, h as int, f as int, y as int),
        decreases h - y,
    {
        proof {
            lemma_table_entry(f as int, fc as int, h as int, y as int);
            assert(f * h <= fc * h) by (nonlinear_arith)
                requires
                    f < fc,
            ;
            assert(fc * h <= 0xFFFF * 0xFFFF) by (nonlinear_arith)
                requires
                    fc <= 0xFFFF,
                    h <= 0xFFFF,
            ;
        }
        let idx: usize = f * h + y;
        assert(4 * idx + 4 <= n) by (nonlinear_arith)
            requires
                idx + 1 <= fc * h,
                n >= h * fc * 4,
        ;
        let v = read_i32_le(pd, 4 * idx);
        let off: usize = if v < 0 { 0 } else { v as usize };
        let ghost before = buf@;
        if off <= n && w <= n - off {
            let mut x: usize = 0;
            while x < w
                invariant
                    n == pd@.len(),
                    off + w <= n,
                    x <= w,
                    buf@ == before + pd@.subrange(off as int, off + x),
                decreases w - x,
            {
                buf.push(pd[off + x]);
                assert(pd@.subrange(off as int, off + x + 1) =~= pd@.subrange(off as int, off + x).push(
                    pd@[off + x],
                ));
                x += 1;
            }
        } else {
            let mut x: usize = 0;
            while x < w
                invariant
                    x <= w,
                    buf@ == before + Seq::new(x as nat, |i: int| 0u8),
                decreases w - x,
            {
                buf.push(0);
                assert(Seq::new((x + 1) as nat, |i: int| 0u8) =~= Seq::new(x as nat, |i: int| 0u8).push(0));
                x += 1;
            }
        }
        assert(off == row_offset(pd@, h as int, f as int, y as int));
        y += 1;
    }
    buf
}

fn decode_animated_frames(width: u16, height: u16, frame_count: u16, pixel_data: Vec<u8>) -> (r: (
    Vec<u8>,
    Vec<Vec<u8>>,
))
    ensures
        (r.0@, frame_views(r.1@)) == animated_frames(width, height, frame_count, pixel_data@),
{
    if frame_count <= 1 {
        let extras: Vec<Vec<u8>> = Vec::new();
        assert(frame_views(extras@) =~= Seq::<Seq<u8>>::empty());
        return (pixel_data, extras);
    }
    let w: usize = width as usize;
    let h: usize = height as usize;
    let fc: usize = frame_count as usize;
    assert((height as u64) * (frame_count as u64) <= 0xFFFF * 0xFFFF) by (nonlinear_arith);
    let table_bytes: u64 = (height as u64) * (frame_count as u64) * 4;
    if w == 0 || h == 0 || (pixel_data.len() as u64) < table_bytes {
        let extras: Vec<Vec<u8>> = Vec::new();
        assert(frame_views(extras@) =~= Seq::<Seq<u8>>::empty());
        return (Vec::new(), extras);
    }
    let frame0 = decode_frame(pixel_data.as_slice(), w, h, fc, 0);
    let mut extras: Vec<Vec<u8>> = Vec::new();
    let mut f: usize = 1;
    while f < fc
        invariant
            w == width,
            h == height,
            fc == frame_count,
            0 < w,
            0 < h,
            1 <= f <= fc,
            pixel_data@.len() >= h * fc * 4,
            frame_views(extras@) =~= Seq::new(
                (f - 1) as nat,
                |i: int| frame_rows(pixel_data@, w as int, h as int, i + 1, h as int),
            ),
        decreases fc - f,
    {
        let frame = decode_frame(pixel_data.as_slice(), w, h, fc, f);
        let ghost before = extras@;
        extras.push(frame);
        assert(frame_views(extras@) =~= frame_views(before).push(frame@));
        f += 1;
    }
    (frame0, extras)
}

} // verus!

verus! {

/// Bytes of a chunk payload range.
pub open spec fn range_bytes(d: Seq<u8>, r: Option<(usize, usize)>) -> Option<Seq<u8>> {
    match r {
        Some(ab) => Some(d.subrange(ab.0 as int, ab.1 as int)),
        None => None,
    }
}

/// Chunks of the record whose header is at `pos`.
pub open spec fn bsi_chunks(d: Seq<u8>, pos: int) -> Option<RecordChunks> {
    chunks_from(d, pos + 13, bsi_record_end(d, pos), no_chunks())
}

/// `img` is the image described by the record at `pos`.
pub open spec fn bsi_image_at(img: BsiImage, d: Seq<u8>, pos: int) -> bool {
    let ch = bsi_chunks(d, pos)->Some_0;
    let bh = bhdr_fields_of(range_bytes(d, ch.bhdr));
    let raw = match range_bytes(d, ch.data) {
        Some(b) => b,
        None => Seq::empty(),
    };
    &&& img.name@ == bsi_name(d, pos)
    &&& img.image_index == name_image_index(img.name@)
    &&& img.x_offset == bh.0
    &&& img.y_offset == bh.1
    &&& img.width == bh.2
    &&& img.height == bh.3
    &&& img.frame_count == bh.4
    &&& img.anim_delay == bh.5
    &&& img.tex_scale == bh.6
    &&& img.data_encoding == bh.7
    &&& img.is_animated == ch.is_animated
    &&& (img.palette is Some <==> (range_bytes(d, ch.cmap) matches Some(c) && c.len() >= 768))
    &&& (img.palette matches Some(p) ==> palette_views(p@) == cmap_colors(range_bytes(d, ch.cmap)->Some_0))
    &&& (img.pixel_data@, frame_views(img.extra_frames@)) == animated_frames(bh.2, bh.3, bh.4, raw)
}

/// Parses the image record at `pos`; `None` at the end of the records.
fn parse_image_record(data: &[u8], pos: usize) -> (r: Result<Option<(BsiImage, usize)>>)
    requires
        bsi_has_record(data@, pos as int) && bsi_record_end(data@, pos as int) <= data@.len()
            ==> name_index_sliceable(bsi_name(data@, pos as int)),
    ensures
        r matches Ok(None) <==> !bsi_has_record(data@, pos as int),
        r is Err <==> bsi_has_record(data@, pos as int) && (bsi_record_end(data@, pos as int)
            > data@.len() || bsi_chunks(data@, pos as int) is None),
        r matches Ok(Some(t)) ==> t.1 == bsi_record_end(data@, pos as int) && bsi_image_at(
            t.0,
            data@,
            pos as int,
        ),
        r matches Err(e) ==> e is Parse,
{
    let (name, record_start, record_end) = match parse_record_header(data, pos) {
        Ok(Some(t)) => t,
        Ok(None) => return Ok(None),
        Err(e) => return Err(e),
    };
    let image_index = image_index_of(name.as_str());
    let chunks = parse_record_chunks(data, record_start, record_end)?;
    let bhdr: Option<&[u8]> = match chunks.bhdr {
        Some((a, b)) => Some(vstd::slice::slice_subrange(data, a, b)),
        None => None,
    };
    let (x_offset, y_offset, width, height, frame_count, anim_delay, tex_scale, data_encoding) =
        parse_bhdr_fields(bhdr);
    let cmap: Option<&[u8]> = match chunks.cmap {
        Some((a, b)) => Some(vstd::slice::slice_subrange(data, a, b)),
        None => None,
    };
    let palette = parse_embedded_palette(cmap);
    let raw: Vec<u8> = match chunks.data {
        Some((a, b)) => crate::bytes::copy_range(data, a, b),
        None => Vec::new(),
    };
    let (pixel_data, extra_frames) = decode_animated_frames(width, height, frame_count, raw);
    let image = BsiImage {
        name,
        image_index,
        width,
        height,
        x_offset,
        y_offset,
        frame_count,
        anim_delay,
        tex_scale,
        data_encoding,
        is_animated: chunks.is_animated,
        palette,
        pixel_data,
        extra_frames,
    };
    Ok(Some((image, record_end)))
}

} // verus!

verus! {

/// Where the record after the one at `pos` starts: right after it, skipping
/// an 8-byte `END ` marker when one follows.
pub open spec fn bsi_next(d: Seq<u8>, pos: int) -> int {
    let e = bsi_record_end(d, pos);
    if e + 8 <= d.len() && d.subrange(e, e + 4) == tag_end() {
        e + 8
    } else {
        e
    }
}

/// Header positions of the records read from `pos` on, or `None` when a
/// record overruns the data or its chunks cannot be read.
pub open spec fn bsi_positions_from(d: Seq<u8>, pos: int) -> Option<Seq<int>>
    decreases d.len() - pos,
{
    if !bsi_has_record(d, pos) {
        Some(Seq::empty())
    } else if bsi_record_end(d, pos) > d.len() || bsi_chunks(d, pos) is None {
        None
    } else {
        match bsi_positions_from(d, bsi_next(d, pos)) {
            Some(rest) => Some(seq![pos] + rest),
            None => None,
        }
    }
}

/// Every record read from `pos` on whose body fits in the data has a name
/// that can be cut after its third byte when it has at least six bytes.
pub open spec fn bsi_names_sliceable_from(d: Seq<u8>, pos: int) -> bool
    decreases d.len() - pos,
{
    if !bsi_has_record(d, pos) || bsi_record_end(d, pos) > d.len() {
        true
    } else {
        &&& name_index_sliceable(bsi_name(d, pos))
        &&& (bsi_chunks(d, pos) is Some ==> bsi_names_sliceable_from(d, bsi_next(d, pos)))
    }
}

/// Parses a texture archive into its image records.
pub fn parse_bsi_file(data: &[u8]) -> (r: Result<BsiFile>)
    requires
        bsi_names_sliceable_from(data@, 0),
    ensures
        r is Ok <==> bsi_positions_from(data@, 0) is Some,
        r matches Ok(f) ==> {
            let ps = bsi_positions_from(data@, 0)->Some_0;
            &&& f.images@.len() == ps.len()
            &&& forall|i: int| 0 <= i < ps.len() ==> bsi_image_at(#[trigger] f.images@[i], data@, ps[i])
        },
        r matches Err(e) ==> e is Parse,
{
    let n: usize = data.len();
    let mut images: Vec<BsiImage> = Vec::new();
    let mut pos: usize = 0;
    let ghost mut ps: Seq<int> = Seq::empty();
    loop
        invariant
            n == data@.len(),
            pos <= n,
            bsi_names_sliceable_from(data@, pos as int),
            bsi_positions_from(data@, 0) == match bsi_positions_from(data@, pos as int) {
                Some(rest) => Some(ps + rest),
                None => None::<Seq<int>>,
            },
            images@.len() == ps.len(),
            forall|i: int| 0 <= i < ps.len() ==> bsi_image_at(#[trigger] images@[i], data@, ps[i]),
        decreases n - pos,
    {
        match parse_image_record(data, pos)? {
            None => {
                assert(ps + Seq::<int>::empty() =~= ps);
                return Ok(BsiFile { images });
            },
            Some((image, record_end)) => {
                proof {
                    let rest = bsi_positions_from(data@, bsi_next(data@, pos as int));
                    if rest is Some {
                        assert(ps.push(pos as int) + rest->Some_0 =~= ps + (seq![pos as int] + rest->Some_0));
                    }
                    ps = ps.push(pos as int);
                }
                images.push(image);
                pos = record_end;
                if n >= 8 && pos <= n - 8 && tag_is_end(data, pos) {
                    pos = pos + 8;
                }
            },
        }
    }
}

fn tag_is_end(data: &[u8], c: usize) -> (r: bool)
    requires
        c + 4 <= data@.len(),
    ensures
        r == (data@.subrange(c as int, c + 4) == tag_end()),
{
    let t = read_tag(data, c);
    tag_eq(&t, 0x45, 0x4E, 0x44, 0x20)
}

/// Whether every record name of `data` can be cut after its third byte, as
/// reading the image index needs.
pub fn bsi_names_sliceable(data: &[u8]) -> (r: bool)
    ensures
        r == bsi_names_sliceable_from(data@, 0),
{
    let n: usize = data.len();
    let mut pos: usize = 0;
    loop
        invariant
            n == data@.len(),
            pos <= n,
            bsi_names_sliceable_from(data@, 0) == bsi_names_sliceable_from(data@, pos as int),
        decreases n - pos,
    {
        let (name, record_start, record_end) = match parse_record_header(data, pos) {
            Ok(Some(t)) => t,
            _ => return true,
        };
        let b: &[u8] = name.as_str().as_bytes();
        if b.len() >= 6 && !name.as_str().is_char_boundary(3) {
            return false;
        }
        if parse_record_chunks(data, record_start, record_end).is_err() {
            return true;
        }
        pos = record_end;
        if n >= 8 && pos <= n - 8 && tag_is_end(data, pos) {
            pos = pos + 8;
        }
    }
}

/// Parses a texture archive when every record name allows its image index
/// to be read; `None` otherwise.
pub fn parse_bsi_file_checked(data: &[u8]) -> (r: Option<Result<BsiFile>>)
    ensures
        r is Some <==> bsi_names_sliceable_from(data@, 0),
        r matches Some(res) ==> {
            &&& (res is Ok <==> bsi_positions_from(data@, 0) is Some)
            &&& (res matches Ok(f) ==> {
                let ps = bsi_positions_from(data@, 0)->Some_0;
                &&& f.images@.len() == ps.len()
                &&& forall|i: int| 0 <= i < ps.len() ==> bsi_image_at(#[trigger] f.images@[i], data@, ps[i])
            })
            &&& (res matches Err(e) ==> e is Parse)
        },
{
    if bsi_names_sliceable(data) {
        Some(parse_bsi_file(data))
    } else {
        None
    }
}

} // verus!

verus! {

impl BsiImage {
    /// Whether `pixels` can be decoded to RGBA with this image's size and
    /// the given palette (see `rgba_decodable`).
    pub fn rgba_decodable_for(&self, pixels: &[u8], palette: Option<&Palette>) -> (r: bool)
        ensures
            r == rgba_decodable(self, pixels@, palette),
    {
        let w: u64 = self.width as u64;
        let h: u64 = self.height as u64;
        assert(w * h <= 0xFFFF * 0xFFFF) by (nonlinear_arith)
            requires
                w <= 0xFFFF,
                h <= 0xFFFF,
        ;
        if w * h * 4 > usize::MAX as u64 {
            return false;
        }
        if palette.is_some() {
            return true;
        }
        match &self.palette {
            None => true,
            Some(p) => {
                let count: usize = (self.width as usize) * (self.height as usize);
                let n: usize = p.len();
                let mut i: usize = 0;
                while i < count
                    invariant
                        count == pixel_count(self),
                        n == p@.len(),
                        self.palette == Some(*p),
                        palette is None,
                        i <= count,
                        forall|k: int| 0 <= k < i ==> #[trigger] pixel_index(pixels@, k) == 0 || (pixel_index(
                            pixels@,
                            k,
                        ) as int) < p@.len(),
                    decreases count - i,
                {
                    let idx: u8 = if i < pixels.len() { pixels[i] } else { 0 };
                    assert(idx == pixel_index(pixels@, i as int));
                    if idx != 0 && idx as usize >= n {
                        assert(!(pixel_index(pixels@, i as int) == 0 || (pixel_index(pixels@, i as int) as int)
                            < p@.len()));
                        assert(i < pixel_count(self));
                        assert(!embedded_palette_covers(self, pixels@));
                        return false;
                    }
                    i += 1;
                }
                true
            },
        }
    }

    /// Whether animation frame `frame` can be decoded with the given palette.
    pub fn frame_decodable(&self, frame: usize, palette: Option<&Palette>) -> (r: bool)
        ensures
            r == ((frame == 0 ==> rgba_decodable(self, self.pixel_data@, palette)) && (0 < frame
                <= self.extra_frames@.len() ==> rgba_decodable(self, self.extra_frames@[frame - 1]@, palette))),
    {
        if frame == 0 {
            self.rgba_decodable_for(self.pixel_data.as_slice(), palette)
        } else if frame - 1 < self.extra_frames.len() {
            self.rgba_decodable_for(self.extra_frames[frame - 1].as_slice(), palette)
        } else {
            true
        }
    }
}

} // verus!

verus! {

/// Pixel `i` of an image decoded with an external palette: a pixel of
/// index 0 is four zero bytes (transparent); any other index `x` gives the
/// palette's colour `x` as red, green, blue, followed by 255 (opaque).
pub proof fn law_rgba_external_palette(img: &BsiImage, px: Seq<u8>, palette: &Palette, i: int)
    requires
        0 <= i < img.width * img.height,
        i < px.len(),
    ensures
        ({
            let out = rgba_of(img, px, Some(palette));
            let x = px[i];
            &&& out.len() == img.width * img.height * 4
            &&& x == 0 ==> out[4 * i] == 0 && out[4 * i + 1] == 0 && out[4 * i + 2] == 0 && out[4 * i + 3] == 0
            &&& x != 0 ==> {
                &&& out[4 * i] == palette.colors@[x as int]@[0]
                &&& out[4 * i + 1] == palette.colors@[x as int]@[1]
                &&& out[4 * i + 2] == palette.colors@[x as int]@[2]
                &&& out[4 * i + 3] == 255
            }
        }),
{
    lemma_quad_index(i);
    let n = img.width * img.height;
    assert(4 * i + 3 < n * 4) by (nonlinear_arith)
        requires
            0 <= i < n,
    ;
}

/// Pixel `i` of an image decoded without an external palette: index 0 is
/// transparent; with an embedded palette covering the index, its colour
/// red, green, blue and 255; without one, the index as a grey level.
pub proof fn law_rgba_own_palette(img: &BsiImage, px: Seq<u8>, i: int)
    requires
        0 <= i < img.width * img.height,
        i < px.len(),
    ensures
        ({
            let out = rgba_of(img, px, None);
            let x = px[i];
            &&& x == 0 ==> out[4 * i] == 0 && out[4 * i + 1] == 0 && out[4 * i + 2] == 0 && out[4 * i + 3] == 0
            &&& x != 0 ==> out[4 * i + 3] == 255 && match img.palette {
                Some(e) => out[4 * i] == e@[x as int]@[0] && out[4 * i + 1] == e@[x as int]@[1] && out[4 * i + 2]
                    == e@[x as int]@[2],
                None => out[4 * i] == x && out[4 * i + 1] == x && out[4 * i + 2] == x,
            }
        }),
{
    lemma_quad_index(i);
    let n = img.width * img.height;
    assert(4 * i + 3 < n * 4) by (nonlinear_arith)
        requires
            0 <= i < n,
    ;
}

/// Where an image header (`BHDR`) of at least 16 bytes puts its fields,
/// as little-endian 16-bit numbers: the signed x and y offsets at 0 and 2,
/// the width at 4 and the height at 6 (negative ones read as 0), and the
/// frame count at 14 (at least 1).
pub proof fn law_bhdr_layout(b: Seq<u8>)
    requires
        b.len() >= 16,
    ensures
        ({
            let f = bhdr_fields_of(Some(b));
            let w = crate::bytes::le2_signed(b[4], b[5]);
            let h = crate::bytes::le2_signed(b[6], b[7]);
            let n = crate::bytes::le2_signed(b[14], b[15]);
            &&& f.0 == crate::bytes::le2_signed(b[0], b[1])
            &&& f.1 == crate::bytes::le2_signed(b[2], b[3])
            &&& f.2 == (if w < 0 { 0 } else { w })
            &&& f.3 == (if h < 0 { 0 } else { h })
            &&& f.4 == (if n < 1 { 1 } else { n })
        }),
{
}

} // verus!
