//! The glyphs of a bitmap font laid side by side in one atlas image: each
//! glyph at the top, one empty column after it.
use crate::import::fnt_ttf::GlyphBitmap;
use vstd::prelude::*;

verus! {

/// Left edge of glyph `k` in the atlas: the widths of the glyphs before it,
/// each followed by one empty column.
pub open spec fn glyph_x(g: Seq<GlyphBitmap>, k: int) -> int
    decreases k,
{
    if k <= 0 {
        0
    } else {
        glyph_x(g, k - 1) + g[k - 1].width + 1
    }
}

/// Height of the tallest of the first `k` glyphs (0 for none).
pub open spec fn tallest(g: Seq<GlyphBitmap>, k: int) -> int
    decreases k,
{
    if k <= 0 {
        0
    } else if g[k - 1].height > tallest(g, k - 1) {
        g[k - 1].height as int
    } else {
        tallest(g, k - 1)
    }
}

/// Width of the atlas: all glyphs and their gaps, at least 1.
pub open spec fn atlas_width(g: Seq<GlyphBitmap>) -> int {
    if glyph_x(g, g.len() as int) < 1 {
        1
    } else {
        glyph_x(g, g.len() as int)
    }
}

/// Height of the atlas: the tallest glyph, at least 1.
pub open spec fn atlas_height(g: Seq<GlyphBitmap>) -> int {
    if tallest(g, g.len() as int) < 1 {
        1
    } else {
        tallest(g, g.len() as int)
    }
}

/// The glyph, from `k` on, whose columns include column `c`.
pub open spec fn column_glyph(g: Seq<GlyphBitmap>, c: int, k: int) -> Option<int>
    decreases g.len() - k,
{
    if k < 0 || k >= g.len() {
        None
    } else if glyph_x(g, k) <= c < glyph_x(g, k) + g[k].width {
        Some(k)
    } else {
        column_glyph(g, c, k + 1)
    }
}

/// The palette index shown at row `y`, column `c` of the atlas: the pixel
/// of the glyph there, or 0 (empty) outside glyphs and past a glyph's
/// pixel data.
pub open spec fn atlas_pixel(g: Seq<GlyphBitmap>, y: int, c: int) -> u8 {
    match column_glyph(g, c, 0) {
        Some(k) => {
            let i = y * g[k].width + (c - glyph_x(g, k));
            if y < g[k].height && i < g[k].pixels@.len() {
                g[k].pixels@[i]
            } else {
                0
            }
        },
        None => 0,
    }
}

/// An atlas: its size, each glyph's left edge, and its palette indices row
/// by row.
#[derive(Debug, Clone)]
pub struct GlyphAtlas {
    pub width: usize,
    pub height: usize,
    pub x: Vec<usize>,
    pub pixels: Vec<u8>,
}

proof fn lemma_glyph_x_grows(g: Seq<GlyphBitmap>, a: int, b: int)
    requires
        0 <= a <= b <= g.len(),
    ensures
        glyph_x(g, a) <= glyph_x(g, b),
    decreases b - a,
{
    if a < b {
        lemma_glyph_x_grows(g, a, b - 1);
    }
}

proof fn lemma_column_glyph(g: Seq<GlyphBitmap>, c: int, j: int)
    requires
        0 <= j,
    ensures
        column_glyph(g, c, j) matches Some(k) ==> j <= k < g.len() && glyph_x(g, k) <= c < glyph_x(g, k) + g[k].width,
    decreases g.len() - j,
{
    if j < g.len() {
        lemma_column_glyph(g, c, j + 1);
    }
}

proof fn lemma_product_at_least(a: int, b: int)
    requires
        a >= 0,
        b >= 1,
    ensures
        a * b >= a,
{
    assert(a * b >= a * 1) by (nonlinear_arith)
        requires
            a >= 0,
            b >= 1,
    ;
}

/// Lays the glyphs out side by side, each at the top, with one empty column
/// after each; nothing when the atlas has more pixels than `usize` counts.
pub fn glyph_atlas(glyphs: &Vec<GlyphBitmap>) -> (r: Option<GlyphAtlas>)
    ensures
        r is None <==> atlas_width(glyphs@) * atlas_height(glyphs@) > usize::MAX,
        r matches Some(a) ==> {
            &&& a.width == atlas_width(glyphs@)
            &&& a.height == atlas_height(glyphs@)
            &&& a.x@.len() == glyphs@.len()
            &&& forall|k: int| 0 <= k < glyphs@.len() ==> #[trigger] a.x@[k] == glyph_x(glyphs@, k)
            &&& a.pixels@.len() == a.width * a.height
            &&& forall|p: int|
                0 <= p < a.pixels@.len() ==> #[trigger] a.pixels@[p] == atlas_pixel(glyphs@, p / a.width as int, p % a.width as int)
        },
{
    let ghost g = glyphs@;
    let n: usize = glyphs.len();
    let mut xs: Vec<usize> = Vec::new();
    let mut x: usize = 0;
    let mut tall: usize = 0;
    let mut k: usize = 0;
    while k < n
        invariant
            g == glyphs@,
            n == g.len(),
            k <= n,
            xs@.len() == k,
            forall|j: int| 0 <= j < k ==> #[trigger] xs@[j] == glyph_x(g, j),
            x == glyph_x(g, k as int),
            tall == tallest(g, k as int),
        decreases n - k,
    {
        xs.push(x);
        let w: usize = glyphs[k].width as usize;
        let h: usize = glyphs[k].height as usize;
        match x.checked_add(w + 1) {
            Some(nx) => {
                x = nx;
            },
            None => {
                proof {
                    lemma_glyph_x_grows(g, k + 1, n as int);
                    lemma_product_at_least(atlas_width(g), atlas_height(g));
                }
                return None;
            },
        }
        if h > tall {
            tall = h;
        }
        k += 1;
    }
    let width: usize = if x < 1 { 1 } else { x };
    let height: usize = if tall < 1 { 1 } else { tall };
    let total: usize = match width.checked_mul(height) {
        Some(t) => t,
        None => {
            return None;
        },
    };
    let mut pixels: Vec<u8> = Vec::new();
    let mut p: usize = 0;
    while p < total
        invariant
            g == glyphs@,
            n == g.len(),
            xs@.len() == n,
            forall|j: int| 0 <= j < n ==> #[trigger] xs@[j] == glyph_x(g, j),
            x == glyph_x(g, n as int),
            width == atlas_width(g),
            width >= 1,
            total == width * height,
            p <= total,
            pixels@.len() == p,
            forall|q: int| 0 <= q < p ==> #[trigger] pixels@[q] == atlas_pixel(g, q / width as int, q % width as int),
        decreases total - p,
    {
        let y: usize = p / width;
        let c: usize = p % width;
        let mut j: usize = 0;
        let mut found: Option<usize> = None;
        while j < n
            invariant_except_break
                found is None,
            invariant
                g == glyphs@,
                n == g.len(),
                xs@.len() == n,
                forall|i: int| 0 <= i < n ==> #[trigger] xs@[i] == glyph_x(g, i),
                x == glyph_x(g, n as int),
                j <= n,
                column_glyph(g, c as int, 0) == column_glyph(g, c as int, j as int),
            ensures
                match column_glyph(g, c as int, 0) {
                    Some(k) => found == Some(k as usize),
                    None => found is None,
                },
            decreases n - j,
        {
            proof {
                lemma_glyph_x_grows(g, j + 1, n as int);
            }
            let w: usize = glyphs[j].width as usize;
            if xs[j] <= c && c < xs[j] + w {
                found = Some(j);
                break;
            }
            j += 1;
        }
        proof {
            lemma_column_glyph(g, c as int, 0);
        }
        let v: u8 = match found {
            Some(k) => {
                let w: usize = glyphs[k].width as usize;
                let h: usize = glyphs[k].height as usize;
                let xx: usize = c - xs[k];
                if y < h {
                    assert(y * w + xx < 65536 * 65536) by (nonlinear_arith)
                        requires
                            y < h,
                            h <= 65535,
                            w <= 65535,
                            xx < w,
                    ;
                    let i: usize = y * w + xx;
                    if i < glyphs[k].pixels.len() {
                        glyphs[k].pixels[i]
                    } else {
                        0
                    }
                } else {
                    0
                }
            },
            None => 0,
        };
        pixels.push(v);
        p += 1;
    }
    Some(GlyphAtlas { width, height, x: xs, pixels })
}

} // verus!
