//! 256-colour palette files.
use crate::error::{parse_error, Error, Result};
use vstd::prelude::*;

verus! {

/// Parsed 256-colour palette.
pub struct Palette {
    pub colors: [[u8; 3]; 256],
}

/// Colour `i` of the palette stored in `d`: three bytes after an 8-byte header.
pub open spec fn palette_color_at(d: Seq<u8>, i: int) -> Seq<u8> {
    seq![d[8 + 3 * i], d[9 + 3 * i], d[10 + 3 * i]]
}

impl Palette {
    /// Colour `i` as a sequence of red, green and blue.
    pub open spec fn color(&self, i: int) -> Seq<u8> {
        self.colors@[i]@
    }

    /// Parses palette bytes into a 256-entry RGB table; the file must hold at
    /// least 776 bytes (an 8-byte header and 768 colour bytes).
    pub fn parse(data: &[u8]) -> (r: Result<Palette>)
        ensures
            r is Ok <==> data@.len() >= 776,
            r matches Ok(p) ==> forall|i: int| 0 <= i < 256 ==> #[trigger] p.color(i) == palette_color_at(data@, i),
            r matches Ok(p) ==> forall|i: int|
                0 <= i < 256 ==> #[trigger] p.colors@[i]@[0] == data@[8 + 3 * i] && p.colors@[i]@[1] == data@[9 + 3 * i]
                    && p.colors@[i]@[2] == data@[10 + 3 * i],
            r matches Err(e) ==> e is Parse,
    {
        if data.len() < 776 {
            return Err(parse_error("COL file too small"));
        }
        let mut colors = [[0u8; 3]; 256];
        let mut i: usize = 0;
        while i < 256
            invariant
                data@.len() >= 776,
                i <= 256,
                colors@.len() == 256,
                forall|k: int| 0 <= k < i ==> #[trigger] colors@[k]@ == palette_color_at(data@, k),
            decreases 256 - i,
        {
            let offset: usize = 8 + i * 3;
            let c = [data[offset], data[offset + 1], data[offset + 2]];
            assert(c@ =~= palette_color_at(data@, i as int));
            colors[i] = c;
            i += 1;
        }
        Ok(Palette { colors })
    }
}

} // verus!
