//! Decoding of the model header and geometry sections.
use super::{
    FaceData, FaceNormal, FaceVertex, FrameDataEntry, FrameType, Model3DFile, Model3DHeader,
    ModelVersion, TextureData, VertexCoord, VertexNormal, model_version_of, version_tag,
};
use crate::bytes::{read_i16_le, read_i32_le, read_u16_le, read_u32_le, spec_i16_of, spec_i32_of, spec_u16_le, spec_u32_le, tag_at};
use crate::error::{parse_error, Error, Result};
use vstd::prelude::*;

verus! {

/// Header field `i` (0-based, after the 4 version bytes).
pub open spec fn raw_field(d: Seq<u8>, i: int) -> u32 {
    spec_u32_le(d, 4 + 4 * i) as u32
}

/// The header declares the v2.6 or v2.7 layout.
pub open spec fn is_v2_layout(d: Seq<u8>) -> bool {
    d.subrange(0, 4) == version_tag(0x32, 0x36) || d.subrange(0, 4) == version_tag(0x32, 0x37)
}

/// `h` is the header stored at the start of `d`. The v2.6/v2.7 layout keeps
/// the normal-index offset where later versions keep the vertex-normal
/// offset, and the vertex-normal offset where they keep the face-vertex
/// total, which reads as 0.
pub open spec fn header_at(h: Model3DHeader, d: Seq<u8>) -> bool {
    let v2 = is_v2_layout(d);
    &&& h.version@ == d.subrange(0, 4)
    &&& h.num_vertices == raw_field(d, 0)
    &&& h.num_faces == raw_field(d, 1)
    &&& h.radius == raw_field(d, 2)
    &&& h.num_frames == raw_field(d, 3)
    &&& h.offset_frame_data == raw_field(d, 4)
    &&& h.total_face_vertices == (if v2 { 0u32 } else { raw_field(d, 5) })
    &&& h.offset_section4 == raw_field(d, 6)
    &&& h.section4_count == raw_field(d, 7)
    &&& h._unused_24 == raw_field(d, 8)
    &&& h.offset_normal_indices == (if v2 { raw_field(d, 10) } else { raw_field(d, 9) })
    &&& h.offset_vertex_normals == (if v2 { raw_field(d, 5) } else { raw_field(d, 10) })
    &&& h.offset_vertex_coords == raw_field(d, 11)
    &&& h.offset_face_normals == raw_field(d, 12)
    &&& h.total_face_vertices_dup == raw_field(d, 13)
    &&& h.offset_face_data == raw_field(d, 14)
}

fn read_version(d: &[u8]) -> (v: [u8; 4])
    requires
        d@.len() >= 4,
    ensures
        v@ == d@.subrange(0, 4),
{
    let v = [d[0], d[1], d[2], d[3]];
    assert(v@ =~= d@.subrange(0, 4));
    v
}

/// Parses the 64-byte header; returns the bytes after it and the header.
pub fn parse_3d_header(input: &[u8]) -> (r: Result<(&[u8], Model3DHeader)>)
    ensures
        r is Ok <==> input@.len() >= 64,
        r matches Ok(t) ==> header_at(t.1, input@) && t.0@ == input@.subrange(64, input@.len() as int),
        r matches Err(e) ==> e is Parse,
{
    let n: usize = input.len();
    if n < 64 {
        return Err(parse_error("3D header truncated"));
    }
    let version = read_version(input);
    let v2 = tag_at(input, 0, 0x76, 0x32, 0x2E, 0x36) || tag_at(input, 0, 0x76, 0x32, 0x2E, 0x37);
    let f5 = read_u32_le(input, 24);
    let f9 = read_u32_le(input, 40);
    let f10 = read_u32_le(input, 44);
    let header = Model3DHeader {
        version,
        num_vertices: read_u32_le(input, 4),
        num_faces: read_u32_le(input, 8),
        radius: read_u32_le(input, 12),
        num_frames: read_u32_le(input, 16),
        offset_frame_data: read_u32_le(input, 20),
        total_face_vertices: if v2 { 0 } else { f5 },
        offset_section4: read_u32_le(input, 28),
        section4_count: read_u32_le(input, 32),
        _unused_24: read_u32_le(input, 36),
        offset_normal_indices: if v2 { f10 } else { f9 },
        offset_vertex_normals: if v2 { f5 } else { f10 },
        offset_vertex_coords: read_u32_le(input, 48),
        offset_face_normals: read_u32_le(input, 52),
        total_face_vertices_dup: read_u32_le(input, 56),
        offset_face_data: read_u32_le(input, 60),
    };
    Ok((vstd::slice::slice_subrange(input, 64, n), header))
}

/// The v4.0/v5.0 layouts.
pub open spec fn is_v4_layout(version: ModelVersion) -> bool {
    version == ModelVersion::V40 || version == ModelVersion::V50
}

/// Material decoded from a raw face texture field. Before v4.0 the field
/// holds a texture id in its bits 7.. (ids below 2 mean a solid colour, the
/// low byte) and an image id in bits 0..7. From v4.0 on, `0xFFF` in the top
/// 12 bits means a solid colour (bits 8..16); otherwise bits 8.. encode the
/// texture id in decimal-like groups above 4 000 000 and the low byte the
/// image id.
pub open spec fn texture_data_of(raw: u32, version: ModelVersion) -> TextureData {
    if !is_v4_layout(version) {
        let texture_id = (raw / 128) as u16;
        if texture_id < 2 {
            TextureData::SolidColor((raw % 256) as u8)
        } else {
            TextureData::Texture { texture_id, image_id: (raw % 128) as u8 }
        }
    } else if raw / 0x10_0000 == 0x0FFF {
        TextureData::SolidColor(((raw / 256) % 256) as u8)
    } else {
        let tmp = ((raw / 256) as u32).wrapping_sub(4_000_000u32) as int;
        let one = (tmp / 250) % 40;
        let ten = ((tmp - one * 250) / 1000) % 100;
        let hundred = (tmp - one * 250 - ten * 1000) / 4000;
        let lo = raw % 256;
        TextureData::Texture {
            texture_id: (one + ten + hundred) as u16,
            image_id: (lo % 10 + (lo / 40) * 10) as u8,
        }
    }
}

/// Decodes a raw face texture field for the given model version.
pub fn parse_texture_data_value(raw: u32, version: &ModelVersion) -> (r: TextureData)
    ensures
        r == texture_data_of(raw, *version),
{
    match version {
        ModelVersion::V40 | ModelVersion::V50 => {
            if raw / 0x10_0000 == 0x0FFF {
                TextureData::SolidColor(((raw / 256) % 256) as u8)
            } else {
                let tmp: u32 = (raw / 256).wrapping_sub(4_000_000);
                let one: u32 = (tmp / 250) % 40;
                assert(one * 250 <= tmp) by (nonlinear_arith)
                    requires
                        one == (tmp / 250) % 40,
                ;
                let rest: u32 = tmp - one * 250;
                let ten: u32 = (rest / 1000) % 100;
                assert(ten * 1000 <= rest) by (nonlinear_arith)
                    requires
                        ten == (rest / 1000) % 100,
                ;
                let hundred: u32 = (rest - ten * 1000) / 4000;
                let lo: u32 = raw % 256;
                TextureData::Texture {
                    texture_id: (one + ten + hundred) as u16,
                    image_id: (lo % 10 + (lo / 40) * 10) as u8,
                }
            }
        },
        _ => {
            let texture_id = (raw / 128) as u16;
            if texture_id < 2 {
                TextureData::SolidColor((raw % 256) as u8)
            } else {
                TextureData::Texture { texture_id, image_id: (raw % 128) as u8 }
            }
        },
    }
}

/// Abstract content of a face record.
pub struct FaceDataView {
    pub vertex_count: u8,
    pub tex_hi: u8,
    pub texture_data: TextureData,
    pub face_vertices: Seq<FaceVertex>,
}

impl View for FaceData {
    type V = FaceDataView;

    open spec fn view(&self) -> FaceDataView {
        FaceDataView {
            vertex_count: self.vertex_count,
            tex_hi: self.tex_hi,
            texture_data: self.texture_data,
            face_vertices: self.face_vertices@,
        }
    }
}

/// Bytes before the vertex entries of a face record.
pub open spec fn face_header_len(version: ModelVersion) -> int {
    if is_v4_layout(version) { 10 } else { 8 }
}

/// Wrapping sum of the U deltas of the first `n` vertices of the face in `d`.
pub open spec fn face_acc_u(d: Seq<u8>, hl: int, n: int) -> i16
    decreases n,
{
    if n <= 0 {
        0
    } else {
        face_acc_u(d, hl, n - 1).wrapping_add(spec_i16_of(spec_u16_le(d, hl + 8 * (n - 1) + 4)) as i16)
    }
}

/// Wrapping sum of the V deltas of the first `n` vertices of the face in `d`.
pub open spec fn face_acc_v(d: Seq<u8>, hl: int, n: int) -> i16
    decreases n,
{
    if n <= 0 {
        0
    } else {
        face_acc_v(d, hl, n - 1).wrapping_add(spec_i16_of(spec_u16_le(d, hl + 8 * (n - 1) + 6)) as i16)
    }
}

/// Vertex `k` of the face in `d`; before v4.0 the stored index is a byte
/// offset into 12-byte vertex records.
pub open spec fn face_vertex_at(d: Seq<u8>, k: int, version: ModelVersion) -> FaceVertex {
    let hl = face_header_len(version);
    let raw = spec_u32_le(d, hl + 8 * k) as u32;
    FaceVertex {
        vertex_index: if is_v4_layout(version) { raw } else { raw / 12 },
        u: face_acc_u(d, hl, k + 1),
        v: face_acc_v(d, hl, k + 1),
    }
}

/// The face record at the start of `d` and its size; `None` when truncated.
pub open spec fn face_at(d: Seq<u8>, version: ModelVersion) -> Option<(FaceDataView, int)> {
    if d.len() < 1 {
        None
    } else {
        let vc = d[0];
        let hl = face_header_len(version);
        if d.len() < hl + 8 * vc {
            None
        } else {
            let raw: u32 = if is_v4_layout(version) {
                spec_u32_le(d, 2) as u32
            } else {
                spec_u16_le(d, 2) as u32
            };
            Some(
                (
                    FaceDataView {
                        vertex_count: vc,
                        tex_hi: d[1],
                        texture_data: texture_data_of(raw, version),
                        face_vertices: Seq::new(vc as nat, |k: int| face_vertex_at(d, k, version)),
                    },
                    hl + 8 * vc,
                ),
            )
        }
    }
}

/// Parses one face record; returns the bytes after it and the face.
pub fn parse_face_data<'a>(input: &'a [u8], version: &ModelVersion) -> (r: Result<(&'a [u8], FaceData)>)
    ensures
        r is Ok <==> face_at(input@, *version) is Some,
        r matches Ok(t) ==> {
            let (f, used) = face_at(input@, *version)->Some_0;
            &&& t.1@ == f
            &&& t.0@ == input@.subrange(used, input@.len() as int)
        },
        r matches Err(e) ==> e is Parse,
{
    let n: usize = input.len();
    if n < 1 {
        return Err(parse_error("face record truncated"));
    }
    let vertex_count: u8 = input[0];
    let v4 = match version {
        ModelVersion::V40 | ModelVersion::V50 => true,
        _ => false,
    };
    let hl: usize = if v4 { 10 } else { 8 };
    if n < hl + 8 * (vertex_count as usize) {
        return Err(parse_error("face record truncated"));
    }
    let tex_hi: u8 = input[1];
    let raw: u32 = if v4 { read_u32_le(input, 2) } else { read_u16_le(input, 2) as u32 };
    let texture_data = parse_texture_data_value(raw, version);
    let mut face_vertices: Vec<FaceVertex> = Vec::new();
    let mut acc_u: i16 = 0;
    let mut acc_v: i16 = 0;
    let mut k: usize = 0;
    while k < vertex_count as usize
        invariant
            n == input@.len(),
            hl == face_header_len(*version),
            v4 == is_v4_layout(*version),
            hl + 8 * vertex_count <= n,
            k <= vertex_count,
            acc_u == face_acc_u(input@, hl as int, k as int),
            acc_v == face_acc_v(input@, hl as int, k as int),
            face_vertices@ =~= Seq::new(k as nat, |j: int| face_vertex_at(input@, j, *version)),
        decreases vertex_count - k,
    {
        let p: usize = hl + 8 * k;
        let vertex_index_raw = read_u32_le(input, p);
        let u = read_i16_le(input, p + 4);
        let v = read_i16_le(input, p + 6);
        let vertex_index: u32 = if v4 { vertex_index_raw } else { vertex_index_raw / 12 };
        acc_u = acc_u.wrapping_add(u);
        acc_v = acc_v.wrapping_add(v);
        face_vertices.push(FaceVertex { vertex_index, u: acc_u, v: acc_v });
        k += 1;
    }
    let used: usize = hl + 8 * (vertex_count as usize);
    Ok((
        vstd::slice::slice_subrange(input, used, n),
        FaceData { vertex_count, tex_hi, texture_data, face_vertices },
    ))
}

} // verus!

verus! {

/// Vertex position stored at `p`.
pub open spec fn coord_at(d: Seq<u8>, p: int) -> VertexCoord {
    VertexCoord {
        x: spec_i32_of(spec_u32_le(d, p)) as i32,
        y: spec_i32_of(spec_u32_le(d, p + 4)) as i32,
        z: spec_i32_of(spec_u32_le(d, p + 8)) as i32,
    }
}

/// Face normal stored at `p`.
pub open spec fn face_normal_at(d: Seq<u8>, p: int) -> FaceNormal {
    FaceNormal {
        x: spec_i32_of(spec_u32_le(d, p)) as i32,
        y: spec_i32_of(spec_u32_le(d, p + 4)) as i32,
        z: spec_i32_of(spec_u32_le(d, p + 8)) as i32,
    }
}

/// Vertex normal stored at `p`.
pub open spec fn vertex_normal_at(d: Seq<u8>, p: int) -> VertexNormal {
    VertexNormal {
        x: spec_u32_le(d, p) as u32,
        y: spec_u32_le(d, p + 4) as u32,
        z: spec_u32_le(d, p + 8) as u32,
    }
}

/// Parses one vertex position (three little-endian `i32`).
pub fn parse_vertex_coord(input: &[u8]) -> (r: Result<(&[u8], VertexCoord)>)
    ensures
        r is Ok <==> input@.len() >= 12,
        r matches Ok(t) ==> t.1 == coord_at(input@, 0) && t.0@ == input@.subrange(12, input@.len() as int),
        r matches Err(e) ==> e is Parse,
{
    let n: usize = input.len();
    if n < 12 {
        return Err(parse_error("vertex position truncated"));
    }
    let c = VertexCoord { x: read_i32_le(input, 0), y: read_i32_le(input, 4), z: read_i32_le(input, 8) };
    Ok((vstd::slice::slice_subrange(input, 12, n), c))
}

/// Parses one face normal (three little-endian `i32`).
pub fn parse_face_normal(input: &[u8]) -> (r: Result<(&[u8], FaceNormal)>)
    ensures
        r is Ok <==> input@.len() >= 12,
        r matches Ok(t) ==> t.1 == face_normal_at(input@, 0) && t.0@ == input@.subrange(12, input@.len() as int),
        r matches Err(e) ==> e is Parse,
{
    let n: usize = input.len();
    if n < 12 {
        return Err(parse_error("face normal truncated"));
    }
    let c = FaceNormal { x: read_i32_le(input, 0), y: read_i32_le(input, 4), z: read_i32_le(input, 8) };
    Ok((vstd::slice::slice_subrange(input, 12, n), c))
}

/// Parses one vertex normal (three 32-bit float bit patterns).
pub fn parse_vertex_normal(input: &[u8]) -> (r: Result<(&[u8], VertexNormal)>)
    ensures
        r is Ok <==> input@.len() >= 12,
        r matches Ok(t) ==> t.1 == vertex_normal_at(input@, 0) && t.0@ == input@.subrange(12, input@.len() as int),
        r matches Err(e) ==> e is Parse,
{
    let n: usize = input.len();
    if n < 12 {
        return Err(parse_error("vertex normal truncated"));
    }
    let c = VertexNormal { x: read_u32_le(input, 0), y: read_u32_le(input, 4), z: read_u32_le(input, 8) };
    Ok((vstd::slice::slice_subrange(input, 12, n), c))
}

/// Number of whole `size`-byte records, at most `k`, that fit in `d[off..len]`.
pub open spec fn fit_count(len: int, off: int, k: int, size: int) -> int {
    if off >= len {
        0
    } else if k < (len - off) / size {
        k
    } else {
        (len - off) / size
    }
}

/// A section offset lies inside the data (and below `u32::MAX`).
pub open spec fn in_file(off: u32, len: int) -> bool {
    off < len && off < u32::MAX
}

/// Frame type of a raw type code.
pub open spec fn frame_type_of(raw: u32) -> FrameType {
    if raw == 0 {
        FrameType::Static3D
    } else if raw == 2 {
        FrameType::AnimatedI16
    } else if raw == 4 {
        FrameType::AnimatedI32
    } else if raw == 8 {
        FrameType::Static3DC
    } else {
        FrameType::Unknown(raw)
    }
}

/// Frame table entry stored at `p`.
pub open spec fn frame_entry_at(d: Seq<u8>, p: int) -> FrameDataEntry {
    FrameDataEntry {
        vertex_offset: spec_u32_le(d, p) as u32,
        normal_offset: spec_u32_le(d, p + 4) as u32,
        reserved: spec_u32_le(d, p + 8) as u32,
        frame_type: frame_type_of(spec_u32_le(d, p + 12) as u32),
    }
}

/// Up to `k` face records read from `pos` on; reading stops before fewer
/// than 20 bytes or at a truncated record.
pub open spec fn faces_from(d: Seq<u8>, pos: int, k: nat, version: ModelVersion) -> Seq<FaceDataView>
    decreases k,
{
    if k == 0 || pos < 0 || d.len() - pos < 20 {
        Seq::empty()
    } else {
        match face_at(d.subrange(pos, d.len() as int), version) {
            Some((f, used)) => seq![f] + faces_from(d, pos + used, (k - 1) as nat, version),
            None => Seq::empty(),
        }
    }
}

/// Views of a sequence of faces.
pub open spec fn face_views(v: Seq<FaceData>) -> Seq<FaceDataView> {
    v.map_values(|f: FaceData| f@)
}

fn fit(n: usize, off: usize, k: u32, size: usize) -> (r: usize)
    requires
        off <= n,
        size > 0,
    ensures
        r == fit_count(n as int, off as int, k as int, size as int),
        off + r * size <= n,
{
    if off >= n {
        return 0;
    }
    let avail: usize = (n - off) / size;
    assert(avail * size <= n - off) by (nonlinear_arith)
        requires
            avail == (n as int - off as int) / (size as int),
            size > 0,
            off < n,
    ;
    let r: usize = if (k as usize) < avail { k as usize } else { avail };
    assert(r * size <= avail * size) by (nonlinear_arith)
        requires
            r <= avail,
            size > 0,
    ;
    r
}

fn read_frame_entries(input: &[u8], off: u32, k: u32) -> (r: Vec<FrameDataEntry>)
    ensures
        r@ == Seq::new(
            fit_count(input@.len() as int, off as int, k as int, 16) as nat,
            |i: int| frame_entry_at(input@, off + 16 * i),
        ),
{
    let n: usize = input.len();
    let mut v: Vec<FrameDataEntry> = Vec::new();
    if off as usize > n {
        assert(v@ =~= Seq::new(0, |i: int| frame_entry_at(input@, off + 16 * i)));
        return v;
    }
    let count = fit(n, off as usize, k, 16);
    let mut i: usize = 0;
    while i < count
        invariant
            n == input@.len(),
            off + count * 16 <= n,
            i <= count,
            v@ =~= Seq::new(i as nat, |j: int| frame_entry_at(input@, off + 16 * j)),
        decreases count - i,
    {
        let p: usize = off as usize + 16 * i;
        let raw_type = read_u32_le(input, p + 12);
        let frame_type = if raw_type == 0 {
            FrameType::Static3D
        } else if raw_type == 2 {
            FrameType::AnimatedI16
        } else if raw_type == 4 {
            FrameType::AnimatedI32
        } else if raw_type == 8 {
            FrameType::Static3DC
        } else {
            FrameType::Unknown(raw_type)
        };
        v.push(
            FrameDataEntry {
                vertex_offset: read_u32_le(input, p),
                normal_offset: read_u32_le(input, p + 4),
                reserved: read_u32_le(input, p + 8),
                frame_type,
            },
        );
        i += 1;
    }
    v
}

fn read_coords(input: &[u8], off: u32, k: u32) -> (r: Vec<VertexCoord>)
    ensures
        r@ == (if in_file(off, input@.len() as int) {
            Seq::new(
                fit_count(input@.len() as int, off as int, k as int, 12) as nat,
                |i: int| coord_at(input@, off + 12 * i),
            )
        } else {
            Seq::empty()
        }),
{
    let n: usize = input.len();
    let mut v: Vec<VertexCoord> = Vec::new();
    if !((off as usize) < n && off < u32::MAX) {
        return v;
    }
    let count = fit(n, off as usize, k, 12);
    let mut i: usize = 0;
    while i < count
        invariant
            n == input@.len(),
            off + count * 12 <= n,
            i <= count,
            v@ =~= Seq::new(i as nat, |j: int| coord_at(input@, off + 12 * j)),
        decreases count - i,
    {
        let p: usize = off as usize + 12 * i;
        v.push(VertexCoord { x: read_i32_le(input, p), y: read_i32_le(input, p + 4), z: read_i32_le(input, p + 8) });
        i += 1;
    }
    v
}

fn read_face_normals(input: &[u8], off: u32, k: u32) -> (r: Vec<FaceNormal>)
    ensures
        r@ == (if in_file(off, input@.len() as int) {
            Seq::new(
                fit_count(input@.len() as int, off as int, k as int, 12) as nat,
                |i: int| face_normal_at(input@, off + 12 * i),
            )
        } else {
            Seq::empty()
        }),
{
    let n: usize = input.len();
    let mut v: Vec<FaceNormal> = Vec::new();
    if !((off as usize) < n && off < u32::MAX) {
        return v;
    }
    let count = fit(n, off as usize, k, 12);
    let mut i: usize = 0;
    while i < count
        invariant
            n == input@.len(),
            off + count * 12 <= n,
            i <= count,
            v@ =~= Seq::new(i as nat, |j: int| face_normal_at(input@, off + 12 * j)),
        decreases count - i,
    {
        let p: usize = off as usize + 12 * i;
        v.push(FaceNormal { x: read_i32_le(input, p), y: read_i32_le(input, p + 4), z: read_i32_le(input, p + 8) });
        i += 1;
    }
    v
}

fn read_vertex_normals(input: &[u8], off: u32, k: u32) -> (r: Vec<VertexNormal>)
    ensures
        r@ == (if off != 0 && in_file(off, input@.len() as int) {
            Seq::new(
                fit_count(input@.len() as int, off as int, k as int, 12) as nat,
                |i: int| vertex_normal_at(input@, off + 12 * i),
            )
        } else {
            Seq::empty()
        }),
{
    let n: usize = input.len();
    let mut v: Vec<VertexNormal> = Vec::new();
    if !(off != 0 && (off as usize) < n && off < u32::MAX) {
        return v;
    }
    let count = fit(n, off as usize, k, 12);
    let mut i: usize = 0;
    while i < count
        invariant
            n == input@.len(),
            off + count * 12 <= n,
            i <= count,
            v@ =~= Seq::new(i as nat, |j: int| vertex_normal_at(input@, off + 12 * j)),
        decreases count - i,
    {
        let p: usize = off as usize + 12 * i;
        v.push(VertexNormal { x: read_u32_le(input, p), y: read_u32_le(input, p + 4), z: read_u32_le(input, p + 8) });
        i += 1;
    }
    v
}

fn read_normal_indices(input: &[u8], off: u32, k: u32) -> (r: Vec<u32>)
    ensures
        r@ == (if off != 0 && in_file(off, input@.len() as int) {
            Seq::new(
                fit_count(input@.len() as int, off as int, k as int, 4) as nat,
                |i: int| spec_u32_le(input@, off + 4 * i) as u32,
            )
        } else {
            Seq::empty()
        }),
{
    let n: usize = input.len();
    let mut v: Vec<u32> = Vec::new();
    if !(off != 0 && (off as usize) < n && off < u32::MAX) {
        return v;
    }
    let count = fit(n, off as usize, k, 4);
    let mut i: usize = 0;
    while i < count
        invariant
            n == input@.len(),
            off + count * 4 <= n,
            i <= count,
            v@ =~= Seq::new(i as nat, |j: int| spec_u32_le(input@, off + 4 * j) as u32),
        decreases count - i,
    {
        v.push(read_u32_le(input, off as usize + 4 * i));
        i += 1;
    }
    v
}

fn read_faces(input: &[u8], off: u32, k: u32, version: &ModelVersion) -> (r: Vec<FaceData>)
    ensures
        face_views(r@) == (if in_file(off, input@.len() as int) {
            faces_from(input@, off as int, k as nat, *version)
        } else {
            Seq::empty()
        }),
{
    let n: usize = input.len();
    let mut v: Vec<FaceData> = Vec::new();
    assert(face_views(v@) =~= Seq::<FaceDataView>::empty());
    if !((off as usize) < n && off < u32::MAX) {
        return v;
    }
    let mut pos: usize = off as usize;
    let mut i: u32 = 0;
    loop
        invariant
            n == input@.len(),
            in_file(off, n as int),
            pos <= n,
            i <= k,
            faces_from(input@, off as int, k as nat, *version) == face_views(v@) + faces_from(
                input@,
                pos as int,
                (k - i) as nat,
                *version,
            ),
        decreases k - i,
    {
        if i >= k || n - pos < 20 {
            assert(face_views(v@) + Seq::<FaceDataView>::empty() =~= face_views(v@));
            return v;
        }
        match parse_face_data(vstd::slice::slice_subrange(input, pos, n), version) {
            Ok((_, face)) => {
                let ghost used = face_at(input@.subrange(pos as int, n as int), *version)->Some_0.1;
                let size: usize = face.size_in_bytes(version);
                assert(size == used);
                let ghost before = v@;
                v.push(face);
                assert(face_views(v@) =~= face_views(before).push(face@));
                assert(face_views(before) + (seq![face@] + faces_from(input@, pos + size, (k - i - 1) as nat, *version))
                    =~= face_views(v@) + faces_from(input@, pos + size, (k - i - 1) as nat, *version));
                pos = pos + size;
            },
            Err(_) => {
                assert(face_views(v@) + Seq::<FaceDataView>::empty() =~= face_views(v@));
                return v;
            },
        }
        i += 1;
    }
}

} // verus!

verus! {

/// Frame table: up to `k` 16-byte entries from `off`.
pub open spec fn frame_entries_section(d: Seq<u8>, off: u32, k: u32) -> Seq<FrameDataEntry> {
    Seq::new(fit_count(d.len() as int, off as int, k as int, 16) as nat, |i: int| frame_entry_at(d, off + 16 * i))
}

/// Vertex positions: up to `k` 12-byte records from `off`, when `off` lies in the data.
pub open spec fn coords_section(d: Seq<u8>, off: u32, k: u32) -> Seq<VertexCoord> {
    if in_file(off, d.len() as int) {
        Seq::new(fit_count(d.len() as int, off as int, k as int, 12) as nat, |i: int| coord_at(d, off + 12 * i))
    } else {
        Seq::empty()
    }
}

/// Face normals: up to `k` 12-byte records from `off`, when `off` lies in the data.
pub open spec fn face_normals_section(d: Seq<u8>, off: u32, k: u32) -> Seq<FaceNormal> {
    if in_file(off, d.len() as int) {
        Seq::new(fit_count(d.len() as int, off as int, k as int, 12) as nat, |i: int| face_normal_at(d, off + 12 * i))
    } else {
        Seq::empty()
    }
}

/// Vertex normals: up to `k` 12-byte records from a nonzero `off` in the data.
pub open spec fn vertex_normals_section(d: Seq<u8>, off: u32, k: u32) -> Seq<VertexNormal> {
    if off != 0 && in_file(off, d.len() as int) {
        Seq::new(fit_count(d.len() as int, off as int, k as int, 12) as nat, |i: int| vertex_normal_at(d, off + 12 * i))
    } else {
        Seq::empty()
    }
}

/// Stored normal indices: up to `k` 32-bit byte offsets from a nonzero `off` in the data.
pub open spec fn raw_indices_section(d: Seq<u8>, off: u32, k: u32) -> Seq<u32> {
    if off != 0 && in_file(off, d.len() as int) {
        Seq::new(fit_count(d.len() as int, off as int, k as int, 4) as nat, |i: int| spec_u32_le(d, off + 4 * i) as u32)
    } else {
        Seq::empty()
    }
}

/// A stored normal index (a byte offset) as an index into the vertex
/// normals that start at `base`; offsets below `base` read as `u32::MAX`.
pub open spec fn normal_index_of(raw: u32, base: u32) -> u32 {
    if raw >= base {
        ((raw - base) / 12) as u32
    } else {
        u32::MAX
    }
}

/// `m` is the model stored in `d`. Before v4.0 the vertex positions sit at
/// the (swapped) vertex-normal offset and vertex normals are not read; the
/// normal indices are converted to array indices when a vertex-normal
/// section exists.
pub open spec fn model_matches(m: Model3DFile, d: Seq<u8>) -> bool {
    let h = m.header;
    let v27 = m.version == ModelVersion::V26 || m.version == ModelVersion::V27;
    let adj_normals = if v27 { h.total_face_vertices } else { h.offset_vertex_normals };
    let adj_coords = if v27 { h.offset_vertex_normals } else { h.offset_vertex_coords };
    let raw = raw_indices_section(d, h.offset_normal_indices, h.total_face_vertices);
    &&& header_at(h, d)
    &&& m.version == model_version_of(d.subrange(0, 4))
    &&& m.frame_data@ == frame_entries_section(d, h.offset_frame_data, h.num_frames)
    &&& face_views(m.face_data@) == (if in_file(h.offset_face_data, d.len() as int) {
        faces_from(d, h.offset_face_data as int, h.num_faces as nat, m.version)
    } else {
        Seq::empty()
    })
    &&& m.vertex_coords@ == coords_section(d, adj_coords, h.num_vertices)
    &&& m.face_normals@ == face_normals_section(d, h.offset_face_normals, h.num_faces)
    &&& m.vertex_normals@ == vertex_normals_section(d, adj_normals, h.num_vertices)
    &&& m.normal_indices@ == (if adj_normals > 0 {
        raw.map_values(|x: u32| normal_index_of(x, adj_normals))
    } else {
        raw
    })
    &&& m.frame_vertex_data@.len() == 0
    &&& m.frame_normal_data@.len() == 0
}

/// Parses a full model: the header is required, the sections are read as far
/// as the data allows.
pub fn parse_3d_file(input: &[u8]) -> (r: Result<(&[u8], Model3DFile)>)
    ensures
        r is Ok <==> input@.len() >= 64,
        r matches Ok(t) ==> model_matches(t.1, input@) && t.0@.len() == 0,
        r matches Err(e) ==> e is Parse,
{
    let (_, header) = parse_3d_header(input)?;
    let version = header.parse_version();
    assert(header.version@ == input@.subrange(0, 4));
    let v27 = header.is_v27_or_earlier();
    let adjusted_offset_normals: u32 = if v27 { header.total_face_vertices } else { header.offset_vertex_normals };
    let adjusted_offset_vertex_coords: u32 = if v27 {
        header.offset_vertex_normals
    } else {
        header.offset_vertex_coords
    };
    let frame_data = read_frame_entries(input, header.offset_frame_data, header.num_frames);
    let face_data = read_faces(input, header.offset_face_data, header.num_faces, &version);
    let vertex_coords = read_coords(input, adjusted_offset_vertex_coords, header.num_vertices);
    let face_normals = read_face_normals(input, header.offset_face_normals, header.num_faces);
    let raw_normal_indices = read_normal_indices(input, header.offset_normal_indices, header.total_face_vertices);
    let vertex_normals = read_vertex_normals(input, adjusted_offset_normals, header.num_vertices);
    let normal_indices: Vec<u32> = if adjusted_offset_normals > 0 {
        let mut out: Vec<u32> = Vec::new();
        let mut i: usize = 0;
        while i < raw_normal_indices.len()
            invariant
                i <= raw_normal_indices@.len(),
                out@ =~= raw_normal_indices@.take(i as int).map_values(
                    |x: u32| normal_index_of(x, adjusted_offset_normals),
                ),
            decreases raw_normal_indices@.len() - i,
        {
            let offset = raw_normal_indices[i];
            let idx: u32 = if offset >= adjusted_offset_normals {
                (offset - adjusted_offset_normals) / 12
            } else {
                u32::MAX
            };
            assert(raw_normal_indices@.take(i + 1) =~= raw_normal_indices@.take(i as int).push(offset));
            out.push(idx);
            i += 1;
        }
        assert(raw_normal_indices@.take(i as int) =~= raw_normal_indices@);
        out
    } else {
        raw_normal_indices
    };
    let model = Model3DFile {
        header,
        version,
        frame_data,
        face_data,
        vertex_coords,
        face_normals,
        normal_indices,
        vertex_normals,
        frame_vertex_data: Vec::new(),
        frame_normal_data: Vec::new(),
    };
    let empty: &[u8] = vstd::slice::slice_subrange(input, 0, 0);
    Ok((empty, model))
}

} // verus!

verus! {

/// Vertex `i` of a coordinates section: its x, y and z are the
/// two's-complement little-endian 32-bit numbers at `off + 12 * i`,
/// `off + 12 * i + 4` and `off + 12 * i + 8`, in that order.
pub proof fn law_vertex_coords_layout(d: Seq<u8>, off: u32, k: u32, i: int)
    requires
        0 <= i < coords_section(d, off, k).len(),
    ensures
        ({
            let p = off + 12 * i;
            let v = coords_section(d, off, k)[i];
            &&& v.x == crate::bytes::le4_signed(d[p], d[p + 1], d[p + 2], d[p + 3])
            &&& v.y == crate::bytes::le4_signed(d[p + 4], d[p + 5], d[p + 6], d[p + 7])
            &&& v.z == crate::bytes::le4_signed(d[p + 8], d[p + 9], d[p + 10], d[p + 11])
        }),
{
    let len = d.len() as int;
    let o = off as int;
    assert(i < (len - o) / 12);
    assert(o + 12 * i + 12 <= len) by (nonlinear_arith)
        requires
            0 <= i < (len - o) / 12,
            o < len,
    ;
}

/// Face normal `i` of a face-normals section: x, y, z are the
/// two's-complement little-endian 32-bit numbers at `off + 12 * i`,
/// `off + 12 * i + 4` and `off + 12 * i + 8`, in that order.
pub proof fn law_face_normals_layout(d: Seq<u8>, off: u32, k: u32, i: int)
    requires
        0 <= i < face_normals_section(d, off, k).len(),
    ensures
        ({
            let p = off + 12 * i;
            let v = face_normals_section(d, off, k)[i];
            &&& v.x == crate::bytes::le4_signed(d[p], d[p + 1], d[p + 2], d[p + 3])
            &&& v.y == crate::bytes::le4_signed(d[p + 4], d[p + 5], d[p + 6], d[p + 7])
            &&& v.z == crate::bytes::le4_signed(d[p + 8], d[p + 9], d[p + 10], d[p + 11])
        }),
{
    let len = d.len() as int;
    let o = off as int;
    assert(o + 12 * i + 12 <= len) by (nonlinear_arith)
        requires
            0 <= i < (len - o) / 12,
            o < len,
    ;
}

/// Vertex normal `i` of a vertex-normals section: x, y, z are the
/// little-endian 32-bit patterns at `off + 12 * i`, `off + 12 * i + 4` and
/// `off + 12 * i + 8`, in that order.
pub proof fn law_vertex_normals_layout(d: Seq<u8>, off: u32, k: u32, i: int)
    requires
        0 <= i < vertex_normals_section(d, off, k).len(),
    ensures
        ({
            let p = off + 12 * i;
            let v = vertex_normals_section(d, off, k)[i];
            &&& v.x == d[p] + 256 * d[p + 1] + 65536 * d[p + 2] + 16777216 * d[p + 3]
            &&& v.y == d[p + 4] + 256 * d[p + 5] + 65536 * d[p + 6] + 16777216 * d[p + 7]
            &&& v.z == d[p + 8] + 256 * d[p + 9] + 65536 * d[p + 10] + 16777216 * d[p + 11]
        }),
{
    let len = d.len() as int;
    let o = off as int;
    assert(o + 12 * i + 12 <= len) by (nonlinear_arith)
        requires
            0 <= i < (len - o) / 12,
            o < len,
    ;
}

} // verus!
