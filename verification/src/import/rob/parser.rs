//! Decoding of the archive header and segment records.
use super::{RobFile, RobHeader, RobSegment, SegmentBBox};
use crate::bytes::{read_u16_le, read_u32_be, read_u32_le, spec_u16_le, spec_u32_be, spec_u32_le, tag_at};
use crate::error::{parse_error, Error, Result};
use vstd::prelude::*;

verus! {

/// `d[p..p + 4]` holds the tag `t`.
pub open spec fn has_tag_at(d: Seq<u8>, p: int, t: Seq<u8>) -> bool {
    p + 4 <= d.len() && d.subrange(p, p + 4) == t
}

/// `OARC`.
pub open spec fn tag_oarc() -> Seq<u8> { seq![0x4Fu8, 0x41u8, 0x52u8, 0x43u8] }
/// `OARD`.
pub open spec fn tag_oard() -> Seq<u8> { seq![0x4Fu8, 0x41u8, 0x52u8, 0x44u8] }
/// `END `.
pub open spec fn tag_end() -> Seq<u8> { seq![0x45u8, 0x4Eu8, 0x44u8, 0x20u8] }

/// Offset of the segment-count fields: after an optional `OARC` tag.
pub open spec fn rob_p0(d: Seq<u8>) -> int {
    if has_tag_at(d, 0, tag_oarc()) { 4 } else { 0 }
}

/// Offset of the payload size: after an optional `OARD` tag.
pub open spec fn rob_p2(d: Seq<u8>) -> int {
    let p1 = rob_p0(d) + 8;
    if has_tag_at(d, p1, tag_oard()) { p1 + 4 } else { p1 }
}

/// The header fields fit in the data.
pub open spec fn rob_header_ok(d: Seq<u8>) -> bool {
    rob_p0(d) + 8 <= d.len() && rob_p2(d) + 4 <= d.len()
}

/// `h` is the header of `d`: an optional `OARC` tag, a big-endian field, the
/// little-endian segment count, an optional `OARD` tag and the big-endian
/// payload size.
pub open spec fn rob_header_matches(h: RobHeader, d: Seq<u8>) -> bool {
    &&& h.unknown_04 == spec_u32_be(d, rob_p0(d))
    &&& h.num_segments == spec_u32_le(d, rob_p0(d) + 4)
    &&& h.payload_size == spec_u32_be(d, rob_p2(d))
}

/// Parses the archive header; returns the bytes after it and the header.
pub fn parse_rob_header(input: &[u8]) -> (r: Result<(&[u8], RobHeader)>)
    ensures
        r is Ok <==> rob_header_ok(input@),
        r matches Ok(t) ==> rob_header_matches(t.1, input@) && t.0@ == input@.subrange(
            rob_p2(input@) + 4,
            input@.len() as int,
        ),
        r matches Err(e) ==> e is Parse,
{
    let n: usize = input.len();
    let p0: usize = if n >= 4 && tag_at(input, 0, 0x4F, 0x41, 0x52, 0x43) { 4 } else { 0 };
    if n < p0 + 8 {
        return Err(parse_error("ROB header truncated"));
    }
    let unknown_04 = read_u32_be(input, p0);
    let num_segments = read_u32_le(input, p0 + 4);
    let p1: usize = p0 + 8;
    let p2: usize = if n >= p1 + 4 && tag_at(input, p1, 0x4F, 0x41, 0x52, 0x44) { p1 + 4 } else { p1 };
    if n < p2 + 4 {
        return Err(parse_error("ROB header truncated"));
    }
    let payload_size = read_u32_be(input, p2);
    Ok((vstd::slice::slice_subrange(input, p2 + 4, n), RobHeader { unknown_04, num_segments, payload_size }))
}

/// The segment at `p` carries payload bytes: a nonzero size and not an
/// external reference (type 512).
pub open spec fn seg_has_payload(d: Seq<u8>, p: int) -> bool {
    spec_u32_le(d, p + 76) > 0 && spec_u16_le(d, p + 12) != 512
}

/// Size of the segment record at `p`: 80 bytes and its payload.
pub open spec fn seg_len(d: Seq<u8>, p: int) -> int {
    80 + if seg_has_payload(d, p) { spec_u32_le(d, p + 76) } else { 0 }
}

/// The segment record at `p` fits in the data.
pub open spec fn seg_ok(d: Seq<u8>, p: int) -> bool {
    0 <= p && p + 80 <= d.len() && p + seg_len(d, p) <= d.len()
}

/// `s` is the segment record stored at `p`.
pub open spec fn seg_matches(s: RobSegment, d: Seq<u8>, p: int) -> bool {
    &&& s.total_size == spec_u32_le(d, p)
    &&& s.segment_name@ == d.subrange(p + 4, p + 12)
    &&& s.segment_type == spec_u16_le(d, p + 12)
    &&& s.segment_flags == spec_u16_le(d, p + 14)
    &&& s.segment_attribs == d[p + 16]
    &&& s._face_count_low@ == d.subrange(p + 17, p + 20)
    &&& s._unused_14 == spec_u32_be(d, p + 20)
    &&& s.bbox.extent_x == spec_u32_le(d, p + 28)
    &&& s.bbox.extent_y == spec_u32_le(d, p + 32)
    &&& s.bbox.extent_z == spec_u32_le(d, p + 36)
    &&& s.bbox.positive_x == spec_u32_le(d, p + 52)
    &&& s.bbox.positive_y == spec_u32_le(d, p + 56)
    &&& s.bbox.positive_z == spec_u32_le(d, p + 60)
    &&& s.bbox.negative_x == spec_u32_le(d, p + 64)
    &&& s.bbox.negative_y == spec_u32_le(d, p + 68)
    &&& s.bbox.negative_z == spec_u32_le(d, p + 72)
    &&& s.data_size == spec_u32_le(d, p + 76)
    &&& s.data@ == d.subrange(p + 80, p + seg_len(d, p))
}

fn read_name(d: &[u8], p: usize) -> (a: [u8; 8])
    requires
        p + 8 <= d@.len(),
    ensures
        a@ == d@.subrange(p as int, p + 8),
{
    let a = [d[p], d[p + 1], d[p + 2], d[p + 3], d[p + 4], d[p + 5], d[p + 6], d[p + 7]];
    assert(a@ =~= d@.subrange(p as int, p + 8));
    a
}

/// Parses one segment record; returns the bytes after it and the segment.
pub fn parse_rob_segment(input: &[u8]) -> (r: Result<(&[u8], RobSegment)>)
    ensures
        r is Ok <==> seg_ok(input@, 0),
        r matches Ok(t) ==> seg_matches(t.1, input@, 0) && t.0@ == input@.subrange(
            seg_len(input@, 0),
            input@.len() as int,
        ),
        r matches Err(e) ==> e is Parse,
{
    let n: usize = input.len();
    if n < 80 {
        return Err(parse_error("ROB segment truncated"));
    }
    let segment_type = read_u16_le(input, 12);
    let data_size = read_u32_le(input, 76);
    let data_len: usize = if data_size > 0 && segment_type != 512 { data_size as usize } else { 0 };
    if data_len > n - 80 {
        return Err(parse_error("ROB segment data truncated"));
    }
    let face_count_low = [input[17], input[18], input[19]];
    assert(face_count_low@ =~= input@.subrange(17, 20));
    let segment = RobSegment {
        total_size: read_u32_le(input, 0),
        segment_name: read_name(input, 4),
        segment_type,
        segment_flags: read_u16_le(input, 14),
        segment_attribs: input[16],
        _face_count_low: face_count_low,
        _unused_14: read_u32_be(input, 20),
        bbox: SegmentBBox {
            extent_x: read_u32_le(input, 28),
            extent_y: read_u32_le(input, 32),
            extent_z: read_u32_le(input, 36),
            positive_x: read_u32_le(input, 52),
            positive_y: read_u32_le(input, 56),
            positive_z: read_u32_le(input, 60),
            negative_x: read_u32_le(input, 64),
            negative_y: read_u32_le(input, 68),
            negative_z: read_u32_le(input, 72),
        },
        data_size,
        data: crate::bytes::copy_range(input, 80, 80 + data_len),
    };
    Ok((vstd::slice::slice_subrange(input, 80 + data_len, n), segment))
}

proof fn lemma_seg_shift(d: Seq<u8>, p: int)
    requires
        0 <= p <= d.len(),
    ensures
        seg_ok(d.subrange(p, d.len() as int), 0) == seg_ok(d, p),
        seg_ok(d, p) ==> seg_len(d.subrange(p, d.len() as int), 0) == seg_len(d, p),
        seg_ok(d, p) ==> forall|s: RobSegment|
            seg_matches(s, d.subrange(p, d.len() as int), 0) ==> #[trigger] seg_matches(s, d, p),
{
    let r = d.subrange(p, d.len() as int);
    if p + 80 <= d.len() {
        assert(r.subrange(4, 12) =~= d.subrange(p + 4, p + 12));
        assert(r.subrange(17, 20) =~= d.subrange(p + 17, p + 20));
        if seg_ok(d, p) {
            assert(r.subrange(80, seg_len(r, 0)) =~= d.subrange(p + 80, p + seg_len(d, p)));
        }
    }
}

/// Positions of `k` consecutive segment records from `p` on, and the
/// position after them; `None` when one does not fit.
pub open spec fn seg_positions(d: Seq<u8>, p: int, k: nat) -> Option<(Seq<int>, int)>
    decreases k,
{
    if k == 0 {
        Some((Seq::empty(), p))
    } else if !seg_ok(d, p) {
        None
    } else {
        match seg_positions(d, p + seg_len(d, p), (k - 1) as nat) {
            Some((rest, e)) => Some((seq![p] + rest, e)),
            None => None,
        }
    }
}

/// Segment positions of an archive whose header fits.
pub open spec fn rob_segment_positions(d: Seq<u8>) -> Option<(Seq<int>, int)> {
    seg_positions(d, rob_p2(d) + 4, spec_u32_le(d, rob_p0(d) + 4) as nat)
}

/// `d` is an archive whose header and declared segments fit.
pub open spec fn rob_ok(d: Seq<u8>) -> bool {
    rob_header_ok(d) && rob_segment_positions(d) is Some
}

/// `f` holds the header and segments of the archive `d`.
pub open spec fn rob_matches(f: RobFile, d: Seq<u8>) -> bool {
    let ps = rob_segment_positions(d)->Some_0.0;
    &&& rob_header_matches(f.header, d)
    &&& f.segments@.len() == ps.len()
    &&& forall|i: int| 0 <= i < ps.len() ==> seg_matches(#[trigger] f.segments@[i], d, ps[i])
}

/// Parses a complete archive: the header, the declared number of segments,
/// and an optional `END ` marker; returns the bytes after it.
pub fn parse_rob_file(input: &[u8]) -> (r: Result<(&[u8], RobFile)>)
    ensures
        r is Ok <==> rob_ok(input@),
        r matches Ok(t) ==> {
            let e = rob_segment_positions(input@)->Some_0.1;
            let after = if has_tag_at(input@, e, tag_end()) { e + 4 } else { e };
            &&& rob_matches(t.1, input@)
            &&& t.0@ == input@.subrange(after, input@.len() as int)
        },
        r matches Err(err) ==> err is Parse,
{
    let n: usize = input.len();
    let (rest0, header) = parse_rob_header(input)?;
    let mut pos: usize = n - rest0.len();
    let mut segments: Vec<RobSegment> = Vec::new();
    let mut k: u32 = 0;
    let ghost mut ps: Seq<int> = Seq::empty();
    while k < header.num_segments
        invariant
            n == input@.len(),
            pos <= n,
            k <= header.num_segments,
            rob_header_matches(header, input@),
            rob_header_ok(input@),
            rob_segment_positions(input@) == match seg_positions(
                input@,
                pos as int,
                (header.num_segments - k) as nat,
            ) {
                Some((rest, e)) => Some((ps + rest, e)),
                None => None,
            },
            segments@.len() == ps.len(),
            forall|i: int| 0 <= i < ps.len() ==> seg_matches(#[trigger] segments@[i], input@, ps[i]),
        decreases header.num_segments - k,
    {
        let rest = vstd::slice::slice_subrange(input, pos, n);
        proof {
            lemma_seg_shift(input@, pos as int);
        }
        let (_, segment) = match parse_rob_segment(rest) {
            Ok(t) => t,
            Err(e) => return Err(e),
        };
        let used: usize = if segment.data_size > 0 && segment.segment_type != 512 {
            80 + segment.data_size as usize
        } else {
            80
        };
        proof {
            let next = seg_positions(input@, pos + used, (header.num_segments - k - 1) as nat);
            if next is Some {
                assert(ps.push(pos as int) + next->Some_0.0 =~= ps + (seq![pos as int] + next->Some_0.0));
            }
            ps = ps.push(pos as int);
        }
        segments.push(segment);
        pos = pos + used;
        k += 1;
    }
    assert(ps + Seq::<int>::empty() =~= ps);
    let after: usize = if n - pos >= 4 && tag_at(input, pos, 0x45, 0x4E, 0x44, 0x20) { pos + 4 } else { pos };
    Ok((vstd::slice::slice_subrange(input, after, n), RobFile { header, segments }))
}

} // verus!
