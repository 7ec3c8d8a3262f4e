//! Object archives: a header followed by segments, each holding metadata and
//! optionally an embedded 3D model.
pub mod parser;

use crate::error::{parse_error, Error, Result};
use crate::import::model3d::{self, Model3DFile, parser::model_matches};
use crate::text::{nul_trimmed_string, trim_nul, utf8_lossy};
use vstd::prelude::*;

verus! {

/// Archive header.
#[derive(Debug, Clone)]
pub struct RobHeader {
    pub unknown_04: u32,
    pub num_segments: u32,
    pub payload_size: u32,
}

/// Axis extents and positive/negative bounds of a segment.
#[derive(Debug, Clone, Copy)]
pub struct SegmentBBox {
    pub extent_x: u32,
    pub extent_y: u32,
    pub extent_z: u32,
    pub positive_x: u32,
    pub positive_y: u32,
    pub positive_z: u32,
    pub negative_x: u32,
    pub negative_y: u32,
    pub negative_z: u32,
}

/// Segment record with metadata and optional payload bytes.
#[derive(Debug, Clone)]
pub struct RobSegment {
    pub total_size: u32,
    pub segment_name: [u8; 8],
    pub segment_type: u16,
    pub segment_flags: u16,
    /// Attribute flags byte at offset 0x10: 0x02 texture preload, 0x40 special object.
    pub segment_attribs: u8,
    /// Build-tool artifact (face count mod 256); not read at run time.
    pub _face_count_low: [u8; 3],
    /// Never read at run time.
    pub _unused_14: u32,
    pub bbox: SegmentBBox,
    pub data_size: u32,
    pub data: Vec<u8>,
}

/// Parsed archive.
#[derive(Debug, Clone)]
pub struct RobFile {
    pub header: RobHeader,
    pub segments: Vec<RobSegment>,
}

/// The segment stores an embedded 3D model.
pub open spec fn has_embedded_model(s: RobSegment) -> bool {
    s.segment_type == 0 && s.data_size > 0
}

impl RobSegment {
    /// The segment name: its 8 bytes without zero padding, decoded as text.
    pub fn name(&self) -> (r: String)
        ensures
            r@ == utf8_lossy(trim_nul(self.segment_name@)),
    {
        nul_trimmed_string(self.segment_name.as_slice())
    }

    /// Render mode from the high byte of `segment_flags`; 0 and values
    /// above 0xFD mean standard rendering (0xFF).
    pub fn render_mode(&self) -> (r: u8)
        ensures
            r == (if self.segment_flags / 256 == 0 || self.segment_flags / 256 > 0xFD {
                0xFF
            } else {
                self.segment_flags / 256
            }),
    {
        let hi: u8 = (self.segment_flags / 256) as u8;
        if hi == 0 || hi > 0xFD {
            0xFF
        } else {
            hi
        }
    }

    /// `true` when the segment stores embedded 3D model bytes.
    pub fn has_embedded_3d_data(&self) -> (r: bool)
        ensures
            r == has_embedded_model(*self),
    {
        self.segment_type == 0 && self.data_size > 0
    }

    /// `true` when the segment stores embedded special-object bytes.
    pub fn has_special_embedded_data(&self) -> (r: bool)
        ensures
            r == (self.segment_type == 256 && self.data_size > 0),
    {
        self.segment_type == 256 && self.data_size > 0
    }

    /// `true` when the segment references an external file.
    pub fn points_to_external_file(&self) -> (r: bool)
        ensures
            r == (self.segment_type == 512),
    {
        self.segment_type == 512
    }

    /// Parses the embedded 3D bytes of this segment.
    pub fn parse_embedded_3d_data(&self) -> (r: Result<Model3DFile>)
        ensures
            r is Ok <==> has_embedded_model(*self) && self.data@.len() >= 64,
            r matches Ok(m) ==> model_matches(m, self.data@),
            r matches Err(e) ==> e is Parse,
    {
        if !self.has_embedded_3d_data() {
            return Err(parse_error("Segment does not contain embedded 3D data"));
        }
        model3d::parse_3d_file(self.data.as_slice())
    }
}

} // verus!

verus! {

/// Parses an object archive.
pub fn parse_rob_file(input: &[u8]) -> (r: Result<RobFile>)
    ensures
        r is Ok <==> parser::rob_ok(input@),
        r matches Ok(f) ==> parser::rob_matches(f, input@),
        r matches Err(e) ==> e is Parse,
{
    match parser::parse_rob_file(input) {
        Ok((_, rob_file)) => Ok(rob_file),
        Err(_) => Err(parse_error("Failed to parse ROB file")),
    }
}

/// Segments whose embedded model is read: they carry model bytes, at least
/// a full model header of them.
pub open spec fn model_segment(s: RobSegment) -> bool {
    has_embedded_model(s) && s.data@.len() >= 64
}

/// The model bytes of the segments whose embedded model is read, in order.
pub open spec fn embedded_model_bytes(segs: Seq<RobSegment>) -> Seq<Seq<u8>>
    decreases segs.len(),
{
    if segs.len() == 0 {
        Seq::empty()
    } else if model_segment(segs[0]) {
        seq![segs[0].data@] + embedded_model_bytes(segs.drop_first())
    } else {
        embedded_model_bytes(segs.drop_first())
    }
}

proof fn lemma_embedded_model_bytes_push(segs: Seq<RobSegment>, s: RobSegment)
    ensures
        embedded_model_bytes(segs.push(s)) == embedded_model_bytes(segs) + (if model_segment(s) {
            seq![s.data@]
        } else {
            Seq::empty()
        }),
    decreases segs.len(),
{
    let x: Seq<Seq<u8>> = if model_segment(s) { seq![s.data@] } else { Seq::empty() };
    if segs.len() == 0 {
        assert(segs.push(s).drop_first() =~= Seq::<RobSegment>::empty());
        assert(segs.push(s)[0] == s);
        assert(embedded_model_bytes(segs) == Seq::<Seq<u8>>::empty());
        assert(embedded_model_bytes(segs.push(s).drop_first()) == Seq::<Seq<u8>>::empty());
        assert(embedded_model_bytes(segs.push(s)) =~= embedded_model_bytes(segs) + x);
    } else {
        assert(segs.push(s).drop_first() =~= segs.drop_first().push(s));
        assert(segs.push(s)[0] == segs[0]);
        lemma_embedded_model_bytes_push(segs.drop_first(), s);
        if model_segment(segs[0]) {
            assert(embedded_model_bytes(segs.push(s)) =~= embedded_model_bytes(segs) + x);
        } else {
            assert(embedded_model_bytes(segs.push(s)) =~= embedded_model_bytes(segs) + x);
        }
    }
}

/// Parses an object archive and the models embedded in its segments;
/// segments whose model cannot be read are skipped.
pub fn parse_rob_with_models(input: &[u8]) -> (r: Result<(RobFile, Vec<Model3DFile>)>)
    ensures
        r is Ok <==> parser::rob_ok(input@),
        r matches Ok(t) ==> {
            let src = embedded_model_bytes(t.0.segments@);
            &&& parser::rob_matches(t.0, input@)
            &&& t.1@.len() == src.len()
            &&& forall|j: int| 0 <= j < src.len() ==> model_matches(#[trigger] t.1@[j], src[j])
        },
        r matches Err(e) ==> e is Parse,
{
    let rob_file = parse_rob_file(input)?;
    let mut models: Vec<Model3DFile> = Vec::new();
    let mut i: usize = 0;
    while i < rob_file.segments.len()
        invariant
            i <= rob_file.segments@.len(),
            models@.len() == embedded_model_bytes(rob_file.segments@.take(i as int)).len(),
            forall|j: int|
                0 <= j < models@.len() ==> model_matches(
                    #[trigger] models@[j],
                    embedded_model_bytes(rob_file.segments@.take(i as int))[j],
                ),
        decreases rob_file.segments@.len() - i,
    {
        let segment = &rob_file.segments[i];
        proof {
            assert(rob_file.segments@.take(i + 1) =~= rob_file.segments@.take(i as int).push(*segment));
            lemma_embedded_model_bytes_push(rob_file.segments@.take(i as int), *segment);
        }
        if segment.has_embedded_3d_data() {
            match segment.parse_embedded_3d_data() {
                Ok(model) => {
                    models.push(model);
                },
                Err(_) => {},
            }
        }
        i += 1;
    }
    assert(rob_file.segments@.take(i as int) =~= rob_file.segments@);
    Ok((rob_file, models))
}

} // verus!
