//! 3D model files (`.3D`, `.3DC`): a 64-byte header followed by sections
//! located through header offsets. Positions and face normals are kept as
//! the stored 24.8 fixed-point integers and vertex normals as the stored
//! IEEE-754 bit patterns.
pub mod mesh;
pub mod parser;

use crate::text::{nul_trimmed_bounds, nul_trimmed_string, trim_nul, utf8_lossy};
use vstd::prelude::*;

verus! {

/// Recognized model format versions.
#[derive(Debug, Clone, Copy, PartialEq, Eq)]
pub enum ModelVersion {
    V26,
    V27,
    V40,
    V50,
    Unknown,
}

/// Face material: a palette index or a texture/image pair.
#[derive(Debug, Clone, Copy)]
pub enum TextureData {
    SolidColor(u8),
    Texture { texture_id: u16, image_id: u8 },
}

/// The 64-byte model header.
#[derive(Debug, Clone)]
pub struct Model3DHeader {
    pub version: [u8; 4],
    pub num_vertices: u32,
    pub num_faces: u32,
    pub radius: u32,
    pub num_frames: u32,
    pub offset_frame_data: u32,
    pub total_face_vertices: u32,
    pub offset_section4: u32,
    pub section4_count: u32,
    /// Always 0 in v4.0/v5.0; never read individually.
    pub _unused_24: u32,
    pub offset_normal_indices: u32,
    pub offset_vertex_normals: u32,
    pub offset_vertex_coords: u32,
    pub offset_face_normals: u32,
    pub total_face_vertices_dup: u32,
    pub offset_face_data: u32,
}

/// One vertex reference of a face with its accumulated UV coordinates.
#[derive(Debug, Clone, Copy)]
pub struct FaceVertex {
    pub vertex_index: u32,
    pub u: i16,
    pub v: i16,
}

/// Decoded face record.
#[derive(Debug, Clone)]
pub struct FaceData {
    pub vertex_count: u8,
    pub tex_hi: u8,
    pub texture_data: TextureData,
    pub face_vertices: Vec<FaceVertex>,
}

/// Vertex position in model space, in 24.8 fixed point.
#[derive(Debug, Clone, Copy)]
pub struct VertexCoord {
    pub x: i32,
    pub y: i32,
    pub z: i32,
}

/// Face normal vector, in 24.8 fixed point.
#[derive(Debug, Clone, Copy)]
pub struct FaceNormal {
    pub x: i32,
    pub y: i32,
    pub z: i32,
}

/// Vertex normal vector: the stored 32-bit float bit patterns.
#[derive(Debug, Clone, Copy)]
pub struct VertexNormal {
    pub x: u32,
    pub y: u32,
    pub z: u32,
}

/// Frame encoding used by frame-table entries.
#[derive(Debug, Clone, Copy, PartialEq, Eq)]
pub enum FrameType {
    Static3D,
    AnimatedI16,
    AnimatedI32,
    Static3DC,
    Unknown(u32),
}

/// Frame table entry of animated model data.
#[derive(Debug, Clone, Copy)]
pub struct FrameDataEntry {
    pub vertex_offset: u32,
    pub normal_offset: u32,
    pub reserved: u32,
    pub frame_type: FrameType,
}

/// Vertex positions of one animation frame.
#[derive(Debug, Clone)]
pub struct FrameVertexData {
    pub coords: Vec<VertexCoord>,
}

/// Face normals of one animation frame.
#[derive(Debug, Clone)]
pub struct FrameNormalData {
    pub face_normals: Vec<FaceNormal>,
}

/// Parsed model with its geometry sections.
#[derive(Debug, Clone)]
pub struct Model3DFile {
    pub header: Model3DHeader,
    pub version: ModelVersion,
    pub frame_data: Vec<FrameDataEntry>,
    pub face_data: Vec<FaceData>,
    pub vertex_coords: Vec<VertexCoord>,
    pub face_normals: Vec<FaceNormal>,
    pub normal_indices: Vec<u32>,
    pub vertex_normals: Vec<VertexNormal>,
    /// Per-frame vertex positions; empty when there are no animation frames.
    pub frame_vertex_data: Vec<FrameVertexData>,
    /// Per-frame face normals; empty when there are no animation frames.
    pub frame_normal_data: Vec<FrameNormalData>,
}

/// Encoded size of a face record: vertex count, material fields (5 bytes in
/// v4.0/v5.0, 3 before), 4 unused bytes and 8 bytes per vertex.
pub open spec fn face_size(vertex_refs: int, version: ModelVersion) -> int {
    let texture_header = if version == ModelVersion::V40 || version == ModelVersion::V50 { 5int } else { 3int };
    1 + texture_header + 4 + 8 * vertex_refs
}

impl FaceData {
    /// Encoded byte size of this face for the given model version.
    pub fn size_in_bytes(&self, version: &ModelVersion) -> (r: usize)
        requires
            face_size(self.face_vertices@.len() as int, *version) <= usize::MAX,
        ensures
            r == face_size(self.face_vertices@.len() as int, *version),
    {
        let texture_header_size: usize = match version {
            ModelVersion::V40 | ModelVersion::V50 => 5,
            _ => 3,
        };
        1 + texture_header_size + 4 + self.face_vertices.len() * 8
    }
}

/// ASCII bytes of a version tag `vX.Y`.
pub open spec fn version_tag(major: u8, minor: u8) -> Seq<u8> {
    seq![0x76u8, major, 0x2Eu8, minor]
}

/// Model version named by the header's version bytes, zero padding removed.
pub open spec fn model_version_of(v: Seq<u8>) -> ModelVersion {
    let t = trim_nul(v);
    if t == version_tag(0x32, 0x36) {
        ModelVersion::V26
    } else if t == version_tag(0x32, 0x37) {
        ModelVersion::V27
    } else if t == version_tag(0x34, 0x30) {
        ModelVersion::V40
    } else if t == version_tag(0x35, 0x30) {
        ModelVersion::V50
    } else {
        ModelVersion::Unknown
    }
}

fn bytes_are(s: &[u8], a: usize, b: usize, t0: u8, t1: u8, t2: u8, t3: u8) -> (r: bool)
    requires
        a <= b <= s@.len(),
    ensures
        r == (s@.subrange(a as int, b as int) == seq![t0, t1, t2, t3]),
{
    if b - a != 4 {
        assert(s@.subrange(a as int, b as int).len() != 4);
        return false;
    }
    crate::bytes::tag_at(s, a, t0, t1, t2, t3)
}

impl Model3DHeader {
    /// The header's version bytes without zero padding, decoded as text.
    pub fn version_string(&self) -> (r: String)
        ensures
            r@ == utf8_lossy(trim_nul(self.version@)),
    {
        nul_trimmed_string(self.version.as_slice())
    }

    /// Maps the version bytes to a known version.
    pub fn parse_version(&self) -> (r: ModelVersion)
        ensures
            r == model_version_of(self.version@),
    {
        let v: &[u8] = self.version.as_slice();
        let (a, b) = nul_trimmed_bounds(v);
        if bytes_are(v, a, b, 0x76, 0x32, 0x2E, 0x36) {
            ModelVersion::V26
        } else if bytes_are(v, a, b, 0x76, 0x32, 0x2E, 0x37) {
            ModelVersion::V27
        } else if bytes_are(v, a, b, 0x76, 0x34, 0x2E, 0x30) {
            ModelVersion::V40
        } else if bytes_are(v, a, b, 0x76, 0x35, 0x2E, 0x30) {
            ModelVersion::V50
        } else {
            ModelVersion::Unknown
        }
    }

    /// `true` for the v2.6 and v2.7 layouts.
    pub fn is_v27_or_earlier(&self) -> (r: bool)
        ensures
            r == (model_version_of(self.version@) == ModelVersion::V26 || model_version_of(
                self.version@,
            ) == ModelVersion::V27),
    {
        match self.parse_version() {
            ModelVersion::V26 | ModelVersion::V27 => true,
            _ => false,
        }
    }

    /// `true` for the v4.0 and v5.0 layouts.
    pub fn is_v40_or_later(&self) -> (r: bool)
        ensures
            r == (model_version_of(self.version@) == ModelVersion::V40 || model_version_of(
                self.version@,
            ) == ModelVersion::V50),
    {
        match self.parse_version() {
            ModelVersion::V40 | ModelVersion::V50 => true,
            _ => false,
        }
    }
}

/// Sum of the vertex counts of the faces.
pub open spec fn sum_vertex_counts(faces: Seq<FaceData>) -> int
    decreases faces.len(),
{
    if faces.len() == 0 {
        0
    } else {
        sum_vertex_counts(faces.drop_last()) + faces.last().vertex_count
    }
}

/// Smallest value of `f` over `s`.
pub open spec fn min_over(s: Seq<VertexCoord>, f: spec_fn(VertexCoord) -> i32) -> i32
    decreases s.len(),
{
    if s.len() <= 1 {
        f(s[0])
    } else {
        let m = min_over(s.drop_last(), f);
        if f(s.last()) < m { f(s.last()) } else { m }
    }
}

/// Largest value of `f` over `s`.
pub open spec fn max_over(s: Seq<VertexCoord>, f: spec_fn(VertexCoord) -> i32) -> i32
    decreases s.len(),
{
    if s.len() <= 1 {
        f(s[0])
    } else {
        let m = max_over(s.drop_last(), f);
        if f(s.last()) > m { f(s.last()) } else { m }
    }
}

impl Model3DFile {
    /// Counts the vertex references of all faces.
    pub fn total_face_vertices(&self) -> (r: usize)
        requires
            self.face_data@.len() * 255 <= usize::MAX,
        ensures
            r == sum_vertex_counts(self.face_data@),
    {
        let mut total: usize = 0;
        let mut i: usize = 0;
        while i < self.face_data.len()
            invariant
                i <= self.face_data@.len(),
                self.face_data@.len() * 255 <= usize::MAX,
                total == sum_vertex_counts(self.face_data@.take(i as int)),
                total <= i * 255,
            decreases self.face_data@.len() - i,
        {
            assert(self.face_data@.take(i + 1).drop_last() =~= self.face_data@.take(i as int));
            total = total + self.face_data[i].vertex_count as usize;
            i += 1;
        }
        assert(self.face_data@.take(i as int) =~= self.face_data@);
        total
    }

    /// Axis-aligned bounding box of the vertex positions (per-axis minimum
    /// and maximum); `None` without vertices.
    pub fn bounding_box(&self) -> (r: Option<(VertexCoord, VertexCoord)>)
        ensures
            r is None <==> self.vertex_coords@.len() == 0,
            r matches Some(b) ==> {
                let s = self.vertex_coords@;
                &&& b.0.x == min_over(s, |c: VertexCoord| c.x)
                &&& b.0.y == min_over(s, |c: VertexCoord| c.y)
                &&& b.0.z == min_over(s, |c: VertexCoord| c.z)
                &&& b.1.x == max_over(s, |c: VertexCoord| c.x)
                &&& b.1.y == max_over(s, |c: VertexCoord| c.y)
                &&& b.1.z == max_over(s, |c: VertexCoord| c.z)
            },
    {
        let n: usize = self.vertex_coords.len();
        if n == 0 {
            return None;
        }
        let ghost s = self.vertex_coords@;
        let first = self.vertex_coords[0];
        let mut lo = first;
        let mut hi = first;
        let mut i: usize = 1;
        while i < n
            invariant
                n == s.len(),
                s == self.vertex_coords@,
                1 <= i <= n,
                lo.x == min_over(s.take(i as int), |c: VertexCoord| c.x),
                lo.y == min_over(s.take(i as int), |c: VertexCoord| c.y),
                lo.z == min_over(s.take(i as int), |c: VertexCoord| c.z),
                hi.x == max_over(s.take(i as int), |c: VertexCoord| c.x),
                hi.y == max_over(s.take(i as int), |c: VertexCoord| c.y),
                hi.z == max_over(s.take(i as int), |c: VertexCoord| c.z),
            decreases n - i,
        {
            let v = self.vertex_coords[i];
            assert(s.take(i + 1).drop_last() =~= s.take(i as int));
            assert(s.take(i + 1).last() == v);
            if v.x < lo.x { lo.x = v.x; }
            if v.y < lo.y { lo.y = v.y; }
            if v.z < lo.z { lo.z = v.z; }
            if v.x > hi.x { hi.x = v.x; }
            if v.y > hi.y { hi.y = v.y; }
            if v.z > hi.z { hi.z = v.z; }
            i += 1;
        }
        assert(s.take(n as int) =~= s);
        Some((lo, hi))
    }
}

} // verus!

verus! {

/// Parses a complete 3D/3DC model file.
pub fn parse_3d_file(input: &[u8]) -> (r: crate::error::Result<Model3DFile>)
    ensures
        r is Ok <==> input@.len() >= 64,
        r matches Ok(m) ==> parser::model_matches(m, input@),
        r matches Err(e) ==> e is Parse,
{
    match parser::parse_3d_file(input) {
        Ok((_, model)) => Ok(model),
        Err(_) => Err(crate::error::parse_error("Failed to parse 3D model file")),
    }
}

} // verus!
