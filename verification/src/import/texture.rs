//! Looking up textures of the texture archives: which archive file a
//! texture number names, which archive stands in for a number that has no
//! file, the image of an archive with a given number, and the PNG form of
//! decoded images.
use crate::import::bsi::BsiFile;
use image::codecs::png::{CompressionType, FilterType, PngEncoder};
use image::ImageEncoder;
use crate::text::{chars_of, parse_u32_chars, parse_u32_text, to_ascii_uppercase};
use vstd::prelude::*;

verus! {

/// Name for the bytes that the `image` crate's PNG encoder writes for an
/// RGBA image of the given size and pixels, with fast or (when `compress`)
/// default compression; nothing when it reports an error.
pub uninterp spec fn png_encoding(width: u32, height: u32, rgba: Seq<u8>, compress: bool) -> Option<Seq<u8>>;

/// Encodes RGBA pixels as PNG through `image::codecs::png::PngEncoder`,
/// with fast compression and no filter, or default compression and adaptive
/// filtering when `compress` is set. Claimed of it: the outcome is a
/// function of its arguments (the name above). The encoder panics on a
/// buffer of the wrong length, which `requires` rules out.
#[verifier::external_body]
fn png_encode(width: u32, height: u32, rgba: &[u8], compress: bool) -> (r: Option<Vec<u8>>)
    requires
        rgba@.len() == width * height * 4,
    ensures
        match r {
            Some(v) => png_encoding(width, height, rgba@, compress) == Some(v@),
            None => png_encoding(width, height, rgba@, compress) is None,
        },
{
    let mut buf = Vec::new();
    let (compression, filter) = if compress {
        (CompressionType::Default, FilterType::Adaptive)
    } else {
        (CompressionType::Fast, FilterType::NoFilter)
    };
    let encoder = PngEncoder::new_with_quality(&mut buf, compression, filter);
    encoder.write_image(rgba, width, height, image::ExtendedColorType::Rgba8).ok()?;
    Some(buf)
}

/// PNG bytes of an RGBA image: nothing for an empty size, pixels of the
/// wrong length, or an encoder failure.
pub fn encode_rgba_png(width: u32, height: u32, rgba: &[u8], compress: bool) -> (r: Option<Vec<u8>>)
    ensures
        r is Some <==> (width > 0 && height > 0 && rgba@.len() == width * height * 4 && png_encoding(
            width,
            height,
            rgba@,
            compress,
        ) is Some),
        r matches Some(v) ==> png_encoding(width, height, rgba@, compress) == Some(v@),
{
    let n: usize = rgba.len();
    if width == 0 || height == 0 {
        return None;
    }
    let area: Option<u64> = (width as u64).checked_mul(height as u64);
    match area {
        Some(p) => {
            assert(p == width * height);
            match p.checked_mul(4) {
                Some(e) => {
                    assert(e == width * height * 4);
                    if n as u64 != e {
                        return None;
                    }
                    png_encode(width, height, rgba, compress)
                },
                None => {
                    None
                },
            }
        },
        None => {
            assert(width * height * 4 > u64::MAX) by (nonlinear_arith)
                requires
                    width > 0,
                    height > 0,
                    width * height > u64::MAX,
            ;
            None
        },
    }
}

/// An 8x8 PNG of one opaque colour.
pub fn palette_color_png(rgb: [u8; 3], compress: bool) -> (r: Option<Vec<u8>>)
    ensures
        r matches Some(v) ==> png_encoding(
            8,
            8,
            Seq::new(256, |k: int| if k % 4 == 3 { 255u8 } else { rgb@[k % 4] }),
            compress,
        ) == Some(v@),
        png_encoding(8, 8, Seq::new(256, |k: int| if k % 4 == 3 { 255u8 } else { rgb@[k % 4] }), compress) is Some
            ==> r is Some,
{
    let ghost want = Seq::new(256, |k: int| if k % 4 == 3 { 255u8 } else { rgb@[k % 4] });
    let mut rgba: Vec<u8> = Vec::new();
    let mut i: usize = 0;
    while i < 64
        invariant
            i <= 64,
            rgba@.len() == 4 * i,
            forall|k: int| 0 <= k < 4 * i ==> #[trigger] rgba@[k] == (if k % 4 == 3 { 255u8 } else { rgb@[k % 4] }),
        decreases 64 - i,
    {
        rgba.push(rgb[0]);
        rgba.push(rgb[1]);
        rgba.push(rgb[2]);
        rgba.push(255);
        assert((4 * i) % 4 == 0 && (4 * i + 1) % 4 == 1 && (4 * i + 2) % 4 == 2 && (4 * i + 3) % 4 == 3) by (nonlinear_arith);
        i += 1;
    }
    assert(rgba@ =~= want);
    encode_rgba_png(8, 8, rgba.as_slice(), compress)
}

/// Some pixel of RGBA bytes is fully transparent.
pub open spec fn has_transparency(rgba: Seq<u8>) -> bool {
    exists|p: int| 0 <= p && 4 * p + 3 < rgba.len() && #[trigger] rgba[4 * p + 3] == 0
}

/// Whether some pixel of RGBA bytes is fully transparent.
pub fn any_transparent(rgba: &[u8]) -> (r: bool)
    ensures
        r == has_transparency(rgba@),
{
    let n: usize = rgba.len();
    let mut p: usize = 0;
    while p < n / 4
        invariant
            n == rgba@.len(),
            p <= n / 4,
            forall|q: int| 0 <= q < p ==> #[trigger] rgba@[4 * q + 3] != 0,
        decreases n / 4 - p,
    {
        if rgba[4 * p + 3] == 0 {
            return true;
        }
        p += 1;
    }
    proof {
        assert forall|q: int| 0 <= q && 4 * q + 3 < rgba@.len() implies #[trigger] rgba@[4 * q + 3] != 0 by {
            assert(q < n / 4) by (nonlinear_arith)
                requires
                    0 <= q,
                    4 * q + 3 < n,
            ;
        }
    }
    false
}

/// Text read as an unsigned 16-bit decimal number, as `str::parse::<u16>`
/// does.
pub open spec fn parse_u16_text(s: Seq<char>) -> Option<u16> {
    match parse_u32_text(s) {
        Some(v) => if v <= 0xFFFF {
            Some(v as u16)
        } else {
            None
        },
        None => None,
    }
}

/// The texture number a file name gives: names `TEXBSI.<n>` (any case) give
/// `n` when it is an unsigned 16-bit number.
pub open spec fn texbsi_number(name: Seq<char>) -> Option<u16> {
    let upper = crate::import::upper_chars(name);
    let prefix = seq!['T', 'E', 'X', 'B', 'S', 'I', '.'];
    if upper.len() >= 7 && upper.take(7) == prefix {
        parse_u16_text(upper.skip(7))
    } else {
        None
    }
}

/// The texture number of a texture archive's file name.
pub fn texbsi_id_of_name(file_name: &str) -> (r: Option<u16>)
    ensures
        r == texbsi_number(file_name@),
{
    let upper = to_ascii_uppercase(file_name);
    let cs = chars_of(upper.as_str());
    assert(cs@ == crate::import::upper_chars(file_name@));
    if cs.len() < 7 || cs[0] != 'T' || cs[1] != 'E' || cs[2] != 'X' || cs[3] != 'B' || cs[4] != 'S' || cs[5] != 'I'
        || cs[6] != '.' {
        proof {
            if cs@.len() >= 7 && cs@.take(7) == seq!['T', 'E', 'X', 'B', 'S', 'I', '.'] {
                assert(cs@.take(7)[0] == 'T' && cs@.take(7)[1] == 'E' && cs@.take(7)[2] == 'X');
                assert(cs@.take(7)[3] == 'B' && cs@.take(7)[4] == 'S' && cs@.take(7)[5] == 'I');
                assert(cs@.take(7)[6] == '.');
            }
        }
        return None;
    }
    assert(cs@.take(7) =~= seq!['T', 'E', 'X', 'B', 'S', 'I', '.']);
    let rest = vstd::slice::slice_subrange(cs.as_slice(), 7, cs.len());
    assert(rest@ =~= cs@.skip(7));
    match parse_u32_chars(rest) {
        Some(v) => if v <= 0xFFFF {
            Some(v as u16)
        } else {
            None
        },
        None => None,
    }
}

/// The archive number looked up for texture `id`, given the numbers that
/// have a file: `id` itself, else its low nine bits, else (above 500) its
/// remainder by 500; `id` when none of them has a file.
pub open spec fn texbsi_lookup(available: Seq<u16>, id: u16) -> u16 {
    let folded = (id % 512) as u16;
    let wrapped = (id % 500) as u16;
    if available.contains(id) {
        id
    } else if available.contains(folded) {
        folded
    } else if id > 500 && available.contains(wrapped) {
        wrapped
    } else {
        id
    }
}

fn contains_u16(v: &Vec<u16>, x: u16) -> (r: bool)
    ensures
        r == v@.contains(x),
{
    let mut i: usize = 0;
    while i < v.len()
        invariant
            i <= v@.len(),
            forall|k: int| 0 <= k < i ==> v@[k] != x,
        decreases v@.len() - i,
    {
        if v[i] == x {
            return true;
        }
        i += 1;
    }
    false
}

/// Chooses the archive number looked up for texture `texture_id` (see
/// `texbsi_lookup`).
pub fn resolve_texbsi_id(available: &Vec<u16>, texture_id: u16) -> (r: u16)
    ensures
        r == texbsi_lookup(available@, texture_id),
{
    if contains_u16(available, texture_id) {
        return texture_id;
    }
    let folded: u16 = texture_id & 0x01FF;
    assert(texture_id & 0x01FFu16 == texture_id % 512) by (bit_vector);
    if contains_u16(available, folded) {
        return folded;
    }
    if texture_id > 500 {
        let wrapped: u16 = texture_id % 500;
        if contains_u16(available, wrapped) {
            return wrapped;
        }
    }
    texture_id
}

/// The position of the first image of an archive with number `image_id`.
pub fn find_image(file: &BsiFile, image_id: u8) -> (r: Option<usize>)
    ensures
        match r {
            Some(i) => i < file.images@.len() && file.images@[i as int].image_index == image_id as u16
                && forall|j: int| 0 <= j < i ==> #[trigger] file.images@[j].image_index != image_id as u16,
            None => forall|j: int| 0 <= j < file.images@.len() ==> #[trigger] file.images@[j].image_index != image_id as u16,
        },
{
    let mut i: usize = 0;
    while i < file.images.len()
        invariant
            i <= file.images@.len(),
            forall|j: int| 0 <= j < i ==> #[trigger] file.images@[j].image_index != image_id as u16,
        decreases file.images@.len() - i,
    {
        if file.images[i].image_index == image_id as u16 {
            return Some(i);
        }
        i += 1;
    }
    None
}

} // verus!
