//! Parser for collision octree files.
//!
//! Section order: `OCTH` (header) → `OCTR` (octree nodes) → `PLST` (leaf
//! polygon lists) → `MLST` (polygon indices) → `END `. Every section starts
//! with a 4-byte ASCII tag and a big-endian payload length.
use crate::bytes::{tag_at, read_i32_le, read_u16_le, read_u32_be, read_u32_le, spec_i32_of, spec_u16_le, spec_u32_be, spec_u32_le};
use crate::error::{parse_error, Error, Result};
use vstd::prelude::*;

verus! {

/// Section header shared by all sections: 4-byte ASCII tag + big-endian payload length.
#[derive(Debug, Clone, Copy)]
pub struct PvoSectionHeader {
    pub tag: [u8; 4],
    pub data_length: u32,
}

/// `OCTH` section — file header (52 bytes payload).
#[derive(Debug, Clone)]
pub struct PvoHeader {
    /// Maximum octree depth (always 10 in shipped files).
    pub depth: u32,
    /// Total octree node count. Equals `leaf_nodes + interior_nodes`.
    pub total_nodes: u32,
    /// Count of nodes that carry leaf data.
    pub leaf_nodes: u32,
    /// Total entries in the `MLST` polygon index table.
    pub mlst_polygon_count: u32,
    /// Always 0 in shipped files.
    pub reserved_18: u32,
    /// Root cell half-extent (power of 2: 16384 or 8192).
    pub cell_size: u32,
    /// Octree root center X coordinate.
    pub center_x: i32,
    /// Octree root center Y coordinate.
    pub center_y: i32,
    /// Octree root center Z coordinate.
    pub center_z: i32,
    /// Always zero in shipped files.
    pub reserved_2c: [u32; 4],
}

impl PvoHeader {
    /// Number of interior-only nodes (nodes with children but no leaf data).
    pub fn interior_nodes(&self) -> (r: u32)
        ensures
            r == if self.total_nodes >= self.leaf_nodes {
                self.total_nodes - self.leaf_nodes
            } else {
                0
            },
    {
        self.total_nodes.saturating_sub(self.leaf_nodes)
    }
}

/// Value of `OctrNode::leaf_ref` indicating no leaf data (interior-only node).
pub const LEAF_REF_NONE: u32 = 0xFFFF_FFFF;

/// Child reference value indicating an empty-child sentinel.
pub const CHILD_REF_EMPTY: u32 = 0xFFFF_FFFE;

/// `OCTR` node record. Variable-length: `5 + popcount(child_mask) * 4` bytes.
///
/// Octant bit assignment: bit 0 = `z > center_z`, bit 1 = `y > center_y`,
/// bit 2 = `x > center_x`.
#[derive(Debug, Clone)]
pub struct OctrNode {
    /// Position within the `OCTR` payload (used by child reference lookups).
    pub byte_offset: usize,
    /// Bit *i* set = octant *i* child present.
    pub child_mask: u8,
    /// Byte offset into the `PLST` payload. `0xFFFFFFFF` = no leaf data.
    pub leaf_ref: u32,
    /// `(octant_index, byte_offset_into_OCTR)` per set bit, low bit first.
    pub child_refs: Vec<(u8, u32)>,
}

/// Abstract content of an octree node.
pub struct OctrNodeView {
    pub byte_offset: int,
    pub child_mask: u8,
    pub leaf_ref: u32,
    pub child_refs: Seq<(u8, u32)>,
}

impl View for OctrNode {
    type V = OctrNodeView;

    open spec fn view(&self) -> OctrNodeView {
        OctrNodeView {
            byte_offset: self.byte_offset as int,
            child_mask: self.child_mask,
            leaf_ref: self.leaf_ref,
            child_refs: self.child_refs@,
        }
    }
}

/// Bit `k` of `m` is set.
pub open spec fn bit_set(m: u8, k: int) -> bool {
    (m as int / pow2_u8(k)) % 2 == 1
}

/// `2^k` for the bit positions of a byte.
pub open spec fn pow2_u8(k: int) -> int {
    if k <= 0 { 1 } else if k == 1 { 2 } else if k == 2 { 4 } else if k == 3 { 8 } else if k == 4 { 16 } else if k == 5 { 32 } else if k == 6 { 64 } else { 128 }
}

/// Number of set bits of `m` among positions `k..8`.
pub open spec fn popcount_from(m: u8, k: int) -> nat
    decreases 8 - k,
{
    if k >= 8 || k < 0 {
        0
    } else {
        (if bit_set(m, k) { 1nat } else { 0nat }) + popcount_from(m, k + 1)
    }
}

/// Number of set bits of `m`.
pub open spec fn popcount(m: u8) -> nat {
    popcount_from(m, 0)
}

fn bit_is_set(m: u8, k: u8) -> (r: bool)
    requires
        k < 8,
    ensures
        r == bit_set(m, k as int),
{
    let d: u8 = if k == 0 { 1 } else if k == 1 { 2 } else if k == 2 { 4 } else if k == 3 { 8 } else if k == 4 { 16 } else if k == 5 { 32 } else if k == 6 { 64 } else { 128 };
    (m / d) % 2 == 1
}

fn count_ones(m: u8) -> (r: u32)
    ensures
        r == popcount(m),
        r <= 8,
{
    let mut k: u8 = 8;
    let mut r: u32 = 0;
    while k > 0
        invariant
            k <= 8,
            r == popcount_from(m, k as int),
            r <= 8 - k,
        decreases k,
    {
        k -= 1;
        if bit_is_set(m, k) {
            r += 1;
        }
    }
    r
}

impl OctrNode {
    /// Returns `true` when this node has no leaf reference.
    pub fn is_interior(&self) -> (r: bool)
        ensures
            r == (self.leaf_ref == LEAF_REF_NONE),
    {
        self.leaf_ref == LEAF_REF_NONE
    }

    /// Returns `true` when this node has no children.
    pub fn is_leaf(&self) -> (r: bool)
        ensures
            r == (self.child_mask == 0),
    {
        self.child_mask == 0
    }

    /// Number of children present according to `child_mask`.
    pub fn child_count(&self) -> (r: u32)
        ensures
            r == popcount(self.child_mask),
    {
        count_ones(self.child_mask)
    }

    /// Encoded byte size of this node record.
    pub fn record_size(&self) -> (r: usize)
        ensures
            r == 5 + 4 * popcount(self.child_mask),
    {
        5 + (count_ones(self.child_mask) as usize) * 4
    }
}

/// One `PLST` entry referencing a run of `MLST` polygon indices.
#[derive(Debug, Clone)]
pub struct PlstEntry {
    /// Number of polygon indices in this run.
    pub count: u16,
    /// Starting index into the `MLST` array.
    pub mlst_start: u32,
}

/// One `PLST` leaf record holding one or more entries.
#[derive(Debug, Clone)]
pub struct PlstLeaf {
    /// Position within the `PLST` payload (used by leaf reference lookups).
    pub byte_offset: usize,
    pub entries: Vec<PlstEntry>,
}

/// Parsed collision octree file.
#[derive(Debug, Clone)]
pub struct PvoFile {
    pub header: PvoHeader,
    pub octr_nodes: Vec<OctrNode>,
    pub plst_leaves: Vec<PlstLeaf>,
    pub mlst_indices: Vec<u16>,
}

/// A node without leaf data.
pub open spec fn node_is_interior(n: OctrNode) -> bool {
    n.leaf_ref == LEAF_REF_NONE
}

/// A node without children.
pub open spec fn node_is_leaf(n: OctrNode) -> bool {
    n.child_mask == 0
}

/// A node with leaf data.
pub open spec fn node_has_leaf_data(n: OctrNode) -> bool {
    n.leaf_ref != LEAF_REF_NONE
}

impl PvoFile {
    /// Counts nodes without leaf data.
    pub fn count_interior_nodes(&self) -> (r: usize)
        ensures
            r == self.octr_nodes@.filter(|n: OctrNode| node_is_interior(n)).len(),
    {
        let mut count: usize = 0;
        let mut i: usize = 0;
        while i < self.octr_nodes.len()
            invariant
                i <= self.octr_nodes@.len(),
                count <= i,
                count == self.octr_nodes@.take(i as int).filter(|n: OctrNode| node_is_interior(n)).len(),
            decreases self.octr_nodes@.len() - i,
        {
            proof {
                reveal_with_fuel(Seq::<_>::filter, 1);
                assert(self.octr_nodes@.take(i + 1).drop_last() =~= self.octr_nodes@.take(i as int));
            }
            if self.octr_nodes[i].is_interior() {
                count += 1;
            }
            i += 1;
        }
        assert(self.octr_nodes@.take(i as int) =~= self.octr_nodes@);
        count
    }

    /// Counts nodes without children.
    pub fn count_leaf_nodes(&self) -> (r: usize)
        ensures
            r == self.octr_nodes@.filter(|n: OctrNode| node_is_leaf(n)).len(),
    {
        let mut count: usize = 0;
        let mut i: usize = 0;
        while i < self.octr_nodes.len()
            invariant
                i <= self.octr_nodes@.len(),
                count <= i,
                count == self.octr_nodes@.take(i as int).filter(|n: OctrNode| node_is_leaf(n)).len(),
            decreases self.octr_nodes@.len() - i,
        {
            proof {
                reveal_with_fuel(Seq::<_>::filter, 1);
                assert(self.octr_nodes@.take(i + 1).drop_last() =~= self.octr_nodes@.take(i as int));
            }
            if self.octr_nodes[i].is_leaf() {
                count += 1;
            }
            i += 1;
        }
        assert(self.octr_nodes@.take(i as int) =~= self.octr_nodes@);
        count
    }

    /// Maps an `MLST` index to a static-object record index: indices below
    /// `mpso_count` map directly, larger ones belong to a secondary table.
    pub fn mlst_index_to_mpso(index: u16, mpso_count: u16) -> (r: Option<u16>)
        ensures
            r == if index < mpso_count { Some(index) } else { None::<u16> },
    {
        if index < mpso_count {
            Some(index)
        } else {
            None
        }
    }
}

// ---- specification of the layout ----

/// Byte size of the node record starting at `c`.
pub open spec fn octr_record_len(p: Seq<u8>, c: int) -> int {
    (5 + 4 * popcount(p[c])) as int
}

/// Child references of the node at `c`, for octants `k..8`, whose stored
/// offsets start at `pos`.
pub open spec fn octr_child_refs(p: Seq<u8>, c: int, k: int, pos: int) -> Seq<(u8, u32)>
    decreases 8 - k,
{
    if k >= 8 || k < 0 {
        Seq::empty()
    } else if bit_set(p[c], k) {
        seq![(k as u8, spec_u32_le(p, pos) as u32)] + octr_child_refs(p, c, k + 1, pos + 4)
    } else {
        octr_child_refs(p, c, k + 1, pos)
    }
}

/// The node record starting at `c`.
pub open spec fn octr_node_at(p: Seq<u8>, c: int) -> OctrNodeView {
    OctrNodeView {
        byte_offset: c,
        child_mask: p[c],
        leaf_ref: spec_u32_le(p, c + 1) as u32,
        child_refs: octr_child_refs(p, c, 0, c + 5),
    }
}

/// The node records filling `p[c..]`, or `None` when the last one is truncated.
pub open spec fn octr_nodes_from(p: Seq<u8>, c: int) -> Option<Seq<OctrNodeView>>
    decreases p.len() - c,
{
    if c >= p.len() || c < 0 {
        Some(Seq::empty())
    } else if c + octr_record_len(p, c) > p.len() {
        None
    } else {
        match octr_nodes_from(p, c + octr_record_len(p, c)) {
            Some(rest) => Some(seq![octr_node_at(p, c)] + rest),
            None => None,
        }
    }
}

/// Byte size of the leaf record starting at `c`.
pub open spec fn plst_record_len(p: Seq<u8>, c: int) -> int {
    1 + 6 * (p[c] as int)
}

/// Entry `j` of the leaf record starting at `c`.
pub open spec fn plst_entry_at(p: Seq<u8>, c: int, j: int) -> PlstEntry {
    PlstEntry {
        count: spec_u16_le(p, c + 1 + 6 * j) as u16,
        mlst_start: spec_u32_le(p, c + 3 + 6 * j) as u32,
    }
}

/// Abstract content of a leaf record.
pub struct PlstLeafView {
    pub byte_offset: int,
    pub entries: Seq<PlstEntry>,
}

impl View for PlstLeaf {
    type V = PlstLeafView;

    open spec fn view(&self) -> PlstLeafView {
        PlstLeafView { byte_offset: self.byte_offset as int, entries: self.entries@ }
    }
}

/// The leaf record starting at `c`.
pub open spec fn plst_leaf_at(p: Seq<u8>, c: int) -> PlstLeafView {
    PlstLeafView {
        byte_offset: c,
        entries: Seq::new(p[c] as nat, |j: int| plst_entry_at(p, c, j)),
    }
}

/// The leaf records filling `p[c..]`, or `None` when the last one is truncated.
pub open spec fn plst_leaves_from(p: Seq<u8>, c: int) -> Option<Seq<PlstLeafView>>
    decreases p.len() - c,
{
    if c >= p.len() || c < 0 {
        Some(Seq::empty())
    } else if c + plst_record_len(p, c) > p.len() {
        None
    } else {
        match plst_leaves_from(p, c + plst_record_len(p, c)) {
            Some(rest) => Some(seq![plst_leaf_at(p, c)] + rest),
            None => None,
        }
    }
}

/// The polygon indices stored in an `MLST` payload.
pub open spec fn mlst_values(p: Seq<u8>) -> Seq<u16> {
    Seq::new((p.len() / 2) as nat, |i: int| spec_u16_le(p, 2 * i) as u16)
}

/// Tag `OCTH`.
pub open spec fn tag_octh() -> Seq<u8> { seq![0x4Fu8, 0x43u8, 0x54u8, 0x48u8] }
/// Tag `OCTR`.
pub open spec fn tag_octr() -> Seq<u8> { seq![0x4Fu8, 0x43u8, 0x54u8, 0x52u8] }
/// Tag `PLST`.
pub open spec fn tag_plst() -> Seq<u8> { seq![0x50u8, 0x4Cu8, 0x53u8, 0x54u8] }
/// Tag `MLST`.
pub open spec fn tag_mlst() -> Seq<u8> { seq![0x4Du8, 0x4Cu8, 0x53u8, 0x54u8] }
/// Tag `END `.
pub open spec fn tag_end() -> Seq<u8> { seq![0x45u8, 0x4Eu8, 0x44u8, 0x20u8] }

/// Payload length declared by the section header at `c`.
pub open spec fn sec_len(d: Seq<u8>, c: int) -> int {
    spec_u32_be(d, c + 4)
}

/// End of the section whose header is at `c`.
pub open spec fn sec_end(d: Seq<u8>, c: int) -> int {
    c + 8 + sec_len(d, c)
}

/// A section tagged `t` starts at `c` and its payload lies within `d`.
pub open spec fn sec_ok(d: Seq<u8>, c: int, t: Seq<u8>) -> bool {
    &&& c + 8 <= d.len()
    &&& d.subrange(c, c + 4) == t
    &&& sec_end(d, c) <= d.len()
}

/// Payload of the section whose header is at `c`.
pub open spec fn sec_payload(d: Seq<u8>, c: int) -> Seq<u8> {
    d.subrange(c + 8, sec_end(d, c))
}

/// `h` is the header stored at `d[o..o + 52]`.
pub open spec fn pvo_header_at(h: PvoHeader, d: Seq<u8>, o: int) -> bool {
    &&& h.depth == spec_u32_le(d, o)
    &&& h.total_nodes == spec_u32_le(d, o + 0x04)
    &&& h.leaf_nodes == spec_u32_le(d, o + 0x08)
    &&& h.mlst_polygon_count == spec_u32_le(d, o + 0x0C)
    &&& h.reserved_18 == spec_u32_le(d, o + 0x10)
    &&& h.cell_size == spec_u32_le(d, o + 0x14)
    &&& h.center_x == spec_i32_of(spec_u32_le(d, o + 0x18))
    &&& h.center_y == spec_i32_of(spec_u32_le(d, o + 0x1C))
    &&& h.center_z == spec_i32_of(spec_u32_le(d, o + 0x20))
    &&& h.reserved_2c@ == seq![
        spec_u32_le(d, o + 0x24) as u32,
        spec_u32_le(d, o + 0x28) as u32,
        spec_u32_le(d, o + 0x2C) as u32,
        spec_u32_le(d, o + 0x30) as u32,
    ]
}

/// Every child reference names a node (or is the empty sentinel) and every
/// leaf reference points inside the `PLST` payload.
pub open spec fn octr_refs_ok(nodes: Seq<OctrNodeView>, plst_size: int) -> bool {
    &&& forall|i: int, j: int|
        0 <= i < nodes.len() && 0 <= j < nodes[i].child_refs.len() ==> (#[trigger] nodes[i].child_refs[j]).1
            == CHILD_REF_EMPTY || exists|m: int|
            0 <= m < nodes.len() && nodes[m].byte_offset == nodes[i].child_refs[j].1
    &&& forall|i: int|
        0 <= i < nodes.len() ==> (#[trigger] nodes[i]).leaf_ref == LEAF_REF_NONE || nodes[i].leaf_ref
            < plst_size
}

/// Every `PLST` run lies within the `MLST` table.
pub open spec fn plst_ranges_ok(leaves: Seq<PlstLeafView>, mlst_count: int) -> bool {
    forall|i: int, j: int|
        0 <= i < leaves.len() && 0 <= j < leaves[i].entries.len() ==> (#[trigger] leaves[i].entries[j]).mlst_start
            + leaves[i].entries[j].count <= mlst_count
}

/// Number of nodes that carry leaf data.
pub open spec fn leaf_data_count(nodes: Seq<OctrNodeView>) -> nat {
    nodes.filter(|n: OctrNodeView| n.leaf_ref != LEAF_REF_NONE).len()
}

/// Offset of the `OCTR` section.
pub open spec fn pvo_c1() -> int { 60 }
/// Offset of the `PLST` section.
pub open spec fn pvo_c2(d: Seq<u8>) -> int { sec_end(d, pvo_c1()) }
/// Offset of the `MLST` section.
pub open spec fn pvo_c3(d: Seq<u8>) -> int { sec_end(d, pvo_c2(d)) }
/// Offset of the `END ` section.
pub open spec fn pvo_c4(d: Seq<u8>) -> int { sec_end(d, pvo_c3(d)) }

/// The nodes of a well-laid-out file.
pub open spec fn pvo_nodes(d: Seq<u8>) -> Seq<OctrNodeView> {
    octr_nodes_from(sec_payload(d, pvo_c1()), 0)->Some_0
}

/// The leaves of a well-laid-out file.
pub open spec fn pvo_leaves(d: Seq<u8>) -> Seq<PlstLeafView> {
    plst_leaves_from(sec_payload(d, pvo_c2(d)), 0)->Some_0
}

/// `d` is a complete, consistent collision octree file.
pub open spec fn pvo_ok(d: Seq<u8>) -> bool {
    &&& d.len() >= 16
    &&& d.subrange(0, 4) == tag_octh()
    &&& sec_len(d, 0) == 52
    &&& 60 <= d.len()
    &&& sec_ok(d, pvo_c1(), tag_octr())
    &&& octr_nodes_from(sec_payload(d, pvo_c1()), 0) is Some
    &&& pvo_nodes(d).len() == spec_u32_le(d, 12)
    &&& sec_ok(d, pvo_c2(d), tag_plst())
    &&& plst_leaves_from(sec_payload(d, pvo_c2(d)), 0) is Some
    &&& sec_ok(d, pvo_c3(d), tag_mlst())
    &&& sec_len(d, pvo_c3(d)) % 2 == 0
    &&& sec_len(d, pvo_c3(d)) / 2 == spec_u32_le(d, 20)
    &&& pvo_c4(d) + 8 <= d.len()
    &&& d.subrange(pvo_c4(d), pvo_c4(d) + 4) == tag_end()
    &&& sec_len(d, pvo_c4(d)) == 0
    &&& leaf_data_count(pvo_nodes(d)) == spec_u32_le(d, 16)
    &&& octr_refs_ok(pvo_nodes(d), sec_len(d, pvo_c2(d)))
    &&& plst_ranges_ok(pvo_leaves(d), spec_u32_le(d, 20))
}

} // verus!

verus! {

/// Views of a sequence of parsed nodes.
pub open spec fn node_views(v: Seq<OctrNode>) -> Seq<OctrNodeView> {
    v.map_values(|n: OctrNode| n@)
}

/// Reads the child references of the node whose mask is `m`, stored from `pos`.
fn read_child_refs(payload: &[u8], c: usize, pos: usize) -> (r: Vec<(u8, u32)>)
    requires
        c < payload@.len(),
        pos == c + 5,
        pos + 4 * popcount(payload@[c as int]) <= payload@.len(),
    ensures
        r@ == octr_child_refs(payload@, c as int, 0, pos as int),
{
    let n = payload.len();
    let m = payload[c];
    let mut refs: Vec<(u8, u32)> = Vec::new();
    let mut k: u8 = 0;
    let mut q: usize = pos;
    while k < 8
        invariant
            k <= 8,
            c < payload@.len() == n,
            m == payload@[c as int],
            q + 4 * popcount_from(m, k as int) <= payload@.len(),
            refs@ + octr_child_refs(payload@, c as int, k as int, q as int) == octr_child_refs(
                payload@,
                c as int,
                0,
                pos as int,
            ),
        decreases 8 - k,
    {
        if bit_is_set(m, k) {
            assert(popcount_from(m, k as int) == 1 + popcount_from(m, k + 1));
            let v = read_u32_le(payload, q);
            proof {
                assert(refs@.push((k, v)) + octr_child_refs(payload@, c as int, k + 1, q + 4) =~= refs@
                    + octr_child_refs(payload@, c as int, k as int, q as int));
            }
            refs.push((k, v));
            q = q + 4;
        }
        k = k + 1;
    }
    assert(refs@ + octr_child_refs(payload@, c as int, 8, q as int) =~= refs@);
    refs
}

/// Parses the `OCTR` payload into its node records and checks that there are
/// exactly `expected_count` of them.
pub fn parse_octr_nodes(payload: &[u8], expected_count: u32) -> (r: Result<Vec<OctrNode>>)
    ensures
        r is Ok <==> (octr_nodes_from(payload@, 0) is Some && octr_nodes_from(payload@, 0)->Some_0.len()
            == expected_count),
        r matches Ok(v) ==> node_views(v@) == octr_nodes_from(payload@, 0)->Some_0,
        r matches Err(e) ==> e is Parse,
{
    let n = payload.len();
    let mut nodes: Vec<OctrNode> = Vec::new();
    let mut c: usize = 0;
    assert(node_views(nodes@) =~= Seq::<OctrNodeView>::empty());
    while c < n
        invariant
            c <= n == payload@.len(),
            octr_nodes_from(payload@, 0) == match octr_nodes_from(payload@, c as int) {
                Some(rest) => Some(node_views(nodes@) + rest),
                None => None::<Seq<OctrNodeView>>,
            },
        decreases n - c,
    {
        if n - c < 5 {
            return Err(parse_error("PVO OCTR truncated node"));
        }
        let child_mask = payload[c];
        let leaf_ref = read_u32_le(payload, c + 1);
        let n_children = count_ones(child_mask) as usize;
        if n - c - 5 < n_children * 4 {
            return Err(parse_error("PVO OCTR truncated child references"));
        }
        let child_refs = read_child_refs(payload, c, c + 5);
        let node = OctrNode { byte_offset: c, child_mask, leaf_ref, child_refs };
        proof {
            assert(node@ == octr_node_at(payload@, c as int));
            let rest = octr_nodes_from(payload@, c + octr_record_len(payload@, c as int));
            if rest is Some {
                assert(node_views(nodes@.push(node)) + rest->Some_0 =~= node_views(nodes@) + (seq![
                    node@,
                ] + rest->Some_0));
            }
        }
        nodes.push(node);
        c = c + 5 + n_children * 4;
    }
    if nodes.len() as u64 != expected_count as u64 {
        return Err(parse_error("PVO OCTR node count mismatch"));
    }
    proof {
        assert(node_views(nodes@) + Seq::<OctrNodeView>::empty() =~= node_views(nodes@));
    }
    Ok(nodes)
}

} // verus!

verus! {

/// Reads the section header at `offset`.
fn read_section_header(data: &[u8], offset: usize) -> (r: Result<PvoSectionHeader>)
    ensures
        r is Ok <==> offset + 8 <= data@.len(),
        r matches Ok(h) ==> h.tag@ == data@.subrange(offset as int, offset + 4)
            && h.data_length == spec_u32_be(data@, offset + 4),
        r matches Err(e) ==> e is Parse,
{
    if data.len() < 8 || offset > data.len() - 8 {
        return Err(parse_error("PVO read out of bounds for section header"));
    }
    let tag = [data[offset], data[offset + 1], data[offset + 2], data[offset + 3]];
    let data_length = read_u32_be(data, offset + 4);
    assert(tag@ =~= data@.subrange(offset as int, offset + 4));
    Ok(PvoSectionHeader { tag, data_length })
}

/// Checks the section tagged `a b e f` at `*cursor` and returns its payload,
/// leaving `*cursor` just past it.
fn read_section_payload<'a>(
    data: &'a [u8],
    cursor: &mut usize,
    a: u8,
    b: u8,
    e: u8,
    f: u8,
) -> (r: Result<&'a [u8]>)
    ensures
        r is Ok <==> sec_ok(data@, *old(cursor) as int, seq![a, b, e, f]),
        r matches Ok(p) ==> p@ == sec_payload(data@, *old(cursor) as int) && *final(cursor)
            == sec_end(data@, *old(cursor) as int),
        r matches Err(err) ==> err is Parse,
{
    let n = data.len();
    let c = *cursor;
    if n < 8 || c > n - 8 {
        return Err(parse_error("PVO read out of bounds for section header"));
    }
    if !tag_at(data, c, a, b, e, f) {
        return Err(parse_error("PVO unexpected section tag"));
    }
    let len = read_u32_be(data, c + 4) as usize;
    if len > n - (c + 8) {
        return Err(parse_error("PVO section extends past end of file"));
    }
    let end = c + 8 + len;
    *cursor = end;
    Ok(vstd::slice::slice_subrange(data, c + 8, end))
}

/// Decodes the 52-byte `OCTH` payload at `offset`.
fn parse_header_payload(data: &[u8], offset: usize) -> (h: PvoHeader)
    requires
        offset + 52 <= data@.len(),
    ensures
        pvo_header_at(h, data@, offset as int),
{
    let _n: usize = data.len();
    PvoHeader {
        depth: read_u32_le(data, offset),
        total_nodes: read_u32_le(data, offset + 0x04),
        leaf_nodes: read_u32_le(data, offset + 0x08),
        mlst_polygon_count: read_u32_le(data, offset + 0x0C),
        reserved_18: read_u32_le(data, offset + 0x10),
        cell_size: read_u32_le(data, offset + 0x14),
        center_x: read_i32_le(data, offset + 0x18),
        center_y: read_i32_le(data, offset + 0x1C),
        center_z: read_i32_le(data, offset + 0x20),
        reserved_2c: [
            read_u32_le(data, offset + 0x24),
            read_u32_le(data, offset + 0x28),
            read_u32_le(data, offset + 0x2C),
            read_u32_le(data, offset + 0x30),
        ],
    }
}

} // verus!

verus! {

/// Views of a sequence of parsed leaves.
pub open spec fn leaf_views(v: Seq<PlstLeaf>) -> Seq<PlstLeafView> {
    v.map_values(|l: PlstLeaf| l@)
}

/// Reads the entries of the leaf record at `c`.
fn read_plst_entries(payload: &[u8], c: usize) -> (r: Vec<PlstEntry>)
    requires
        c < payload@.len(),
        c + plst_record_len(payload@, c as int) <= payload@.len(),
    ensures
        r@ == plst_leaf_at(payload@, c as int).entries,
{
    let n: usize = payload.len();
    let entry_count: u8 = payload[c];
    let mut entries: Vec<PlstEntry> = Vec::new();
    let mut j: u8 = 0;
    let mut q: usize = c + 1;
    while j < entry_count
        invariant
            n == payload@.len(),
            c < n,
            entry_count == payload@[c as int],
            j <= entry_count,
            q == c + 1 + 6 * j,
            c + 1 + 6 * entry_count <= n,
            entries@ =~= Seq::new(j as nat, |i: int| plst_entry_at(payload@, c as int, i)),
        decreases entry_count - j,
    {
        let count = read_u16_le(payload, q);
        let mlst_start = read_u32_le(payload, q + 2);
        entries.push(PlstEntry { count, mlst_start });
        j = j + 1;
        q = q + 6;
    }
    entries
}

/// Parses the `PLST` payload into its leaf records.
fn parse_plst_leaves(payload: &[u8]) -> (r: Result<Vec<PlstLeaf>>)
    ensures
        r is Ok <==> plst_leaves_from(payload@, 0) is Some,
        r matches Ok(v) ==> leaf_views(v@) == plst_leaves_from(payload@, 0)->Some_0,
        r matches Err(e) ==> e is Parse,
{
    let n: usize = payload.len();
    let mut leaves: Vec<PlstLeaf> = Vec::new();
    let mut c: usize = 0;
    assert(leaf_views(leaves@) =~= Seq::<PlstLeafView>::empty());
    while c < n
        invariant
            c <= n == payload@.len(),
            plst_leaves_from(payload@, 0) == match plst_leaves_from(payload@, c as int) {
                Some(rest) => Some(leaf_views(leaves@) + rest),
                None => None::<Seq<PlstLeafView>>,
            },
        decreases n - c,
    {
        let entry_count = payload[c] as usize;
        if n - c - 1 < entry_count * 6 {
            return Err(parse_error("PVO PLST truncated entries"));
        }
        let entries = read_plst_entries(payload, c);
        let leaf = PlstLeaf { byte_offset: c, entries };
        proof {
            let rest = plst_leaves_from(payload@, c + plst_record_len(payload@, c as int));
            if rest is Some {
                assert(leaf_views(leaves@.push(leaf)) + rest->Some_0 =~= leaf_views(leaves@) + (seq![
                    leaf@,
                ] + rest->Some_0));
            }
        }
        leaves.push(leaf);
        c = c + 1 + entry_count * 6;
    }
    assert(leaf_views(leaves@) + Seq::<PlstLeafView>::empty() =~= leaf_views(leaves@));
    Ok(leaves)
}

/// Parses the `MLST` payload into 16-bit polygon indices.
fn parse_mlst_indices(payload: &[u8]) -> (r: Result<Vec<u16>>)
    ensures
        r is Ok <==> payload@.len() % 2 == 0,
        r matches Ok(v) ==> v@ == mlst_values(payload@),
        r matches Err(e) ==> e is Parse,
{
    let n: usize = payload.len();
    if n % 2 != 0 {
        return Err(parse_error("PVO MLST payload size is not a multiple of 2"));
    }
    let count: usize = n / 2;
    let mut indices: Vec<u16> = Vec::new();
    let mut i: usize = 0;
    while i < count
        invariant
            n == payload@.len(),
            count == n / 2,
            n % 2 == 0,
            i <= count,
            indices@ =~= Seq::new(i as nat, |k: int| spec_u16_le(payload@, 2 * k) as u16),
        decreases count - i,
    {
        indices.push(read_u16_le(payload, i * 2));
        i = i + 1;
    }
    Ok(indices)
}

/// Checks the `OCTH` section at `*cursor` and decodes the header in it,
/// leaving `*cursor` just past it.
fn parse_octh_section(data: &[u8], cursor: &mut usize) -> (r: Result<PvoHeader>)
    ensures
        r is Ok <==> ({
            let c = *old(cursor) as int;
            &&& c + 8 <= data@.len()
            &&& data@.subrange(c, c + 4) == tag_octh()
            &&& sec_len(data@, c) == 52
            &&& c + 60 <= data@.len()
        }),
        r matches Ok(h) ==> pvo_header_at(h, data@, *old(cursor) + 8) && *final(cursor) == *old(
            cursor,
        ) + 60,
        r matches Err(e) ==> e is Parse,
{
    let section_header = read_section_header(data, *cursor)?;
    let c = *cursor;
    let t = section_header.tag;
    if !(t[0] == 0x4F && t[1] == 0x43 && t[2] == 0x54 && t[3] == 0x48) {
        assert(t@[0] == data@.subrange(c as int, c + 4)[0]);
        assert(t@[1] == data@.subrange(c as int, c + 4)[1]);
        assert(t@[2] == data@.subrange(c as int, c + 4)[2]);
        assert(t@[3] == data@.subrange(c as int, c + 4)[3]);
        return Err(parse_error("PVO expected OCTH section"));
    }
    assert(data@.subrange(c as int, c + 4) =~= tag_octh());
    if section_header.data_length != 52 {
        return Err(parse_error("PVO OCTH data_length is not 52"));
    }
    if data.len() - c - 8 < 52 {
        return Err(parse_error("PVO OCTH payload too short"));
    }
    let header = parse_header_payload(data, c + 8);
    *cursor = c + 60;
    Ok(header)
}

/// Checks that an empty `END ` section starts at `cursor`.
fn validate_end_section(data: &[u8], cursor: usize) -> (r: Result<()>)
    ensures
        r is Ok <==> (cursor + 8 <= data@.len() && data@.subrange(cursor as int, cursor + 4)
            == tag_end() && sec_len(data@, cursor as int) == 0),
        r matches Err(e) ==> e is Parse,
{
    let n: usize = data.len();
    if n < 8 || cursor > n - 8 {
        return Err(parse_error("PVO read out of bounds for END section"));
    }
    if !tag_at(data, cursor, 0x45, 0x4E, 0x44, 0x20) {
        return Err(parse_error("PVO expected END section"));
    }
    if read_u32_be(data, cursor + 4) != 0 {
        return Err(parse_error("PVO END data_length is not 0"));
    }
    Ok(())
}

} // verus!

verus! {

broadcast use vstd::std_specs::hash::group_hash_axioms;

/// Checks that the number of nodes with leaf data matches the header.
fn validate_leaf_count(header: &PvoHeader, octr_nodes: &[OctrNode]) -> (r: Result<()>)
    ensures
        r is Ok <==> leaf_data_count(node_views(octr_nodes@)) == header.leaf_nodes,
        r matches Err(e) ==> e is Parse,
{
    let n: usize = octr_nodes.len();
    let ghost vs = node_views(octr_nodes@);
    let mut count: usize = 0;
    let mut i: usize = 0;
    while i < n
        invariant
            n == octr_nodes@.len() == vs.len(),
            vs == node_views(octr_nodes@),
            i <= n,
            count <= i,
            count == leaf_data_count(vs.take(i as int)),
        decreases n - i,
    {
        proof {
            reveal_with_fuel(Seq::<_>::filter, 1);
            assert(vs.take(i + 1).drop_last() =~= vs.take(i as int));
            assert(vs[i as int] == octr_nodes@[i as int]@);
        }
        if !octr_nodes[i].is_interior() {
            count += 1;
        }
        i += 1;
    }
    assert(vs.take(n as int) =~= vs);
    if count as u64 != header.leaf_nodes as u64 {
        return Err(parse_error("PVO leaf_nodes mismatch"));
    }
    Ok(())
}

/// Some node of `nodes` starts at byte offset `x`.
pub open spec fn is_node_offset(nodes: Seq<OctrNodeView>, x: int) -> bool {
    exists|m: int| 0 <= m < nodes.len() && #[trigger] nodes[m].byte_offset == x
}

/// Checks every child reference and leaf reference of the nodes.
fn validate_node_refs(plst_size: usize, octr_nodes: &[OctrNode]) -> (r: Result<()>)
    ensures
        r is Ok <==> octr_refs_ok(node_views(octr_nodes@), plst_size as int),
        r matches Err(e) ==> e is Parse,
{
    let n: usize = octr_nodes.len();
    let ghost vs = node_views(octr_nodes@);
    let mut offsets: std::collections::HashSet<usize> = std::collections::HashSet::new();
    let mut i: usize = 0;
    while i < n
        invariant
            n == octr_nodes@.len() == vs.len(),
            vs == node_views(octr_nodes@),
            i <= n,
            forall|x: usize| #[trigger]
                offsets@.contains(x) <==> exists|m: int| 0 <= m < i && vs[m].byte_offset == x,
        decreases n - i,
    {
        assert(vs[i as int] == octr_nodes@[i as int]@);
        offsets.insert(octr_nodes[i].byte_offset);
        i += 1;
    }
    let mut i: usize = 0;
    while i < n
        invariant
            n == octr_nodes@.len() == vs.len(),
            vs == node_views(octr_nodes@),
            i <= n,
            forall|x: usize| #[trigger]
                offsets@.contains(x) <==> exists|m: int| 0 <= m < n && vs[m].byte_offset == x,
            forall|a: int, b: int|
                0 <= a < i && 0 <= b < vs[a].child_refs.len() ==> (#[trigger] vs[a].child_refs[b]).1
                    == CHILD_REF_EMPTY || is_node_offset(vs, vs[a].child_refs[b].1 as int),
            forall|a: int|
                0 <= a < i ==> (#[trigger] vs[a]).leaf_ref == LEAF_REF_NONE || vs[a].leaf_ref
                    < plst_size,
        decreases n - i,
    {
        let node = &octr_nodes[i];
        assert(vs[i as int] == node@);
        let k: usize = node.child_refs.len();
        let mut j: usize = 0;
        while j < k
            invariant
                n == octr_nodes@.len() == vs.len(),
                vs == node_views(octr_nodes@),
                i < n,
                vs[i as int] == node@,
                k == node.child_refs@.len(),
                j <= k,
                forall|x: usize| #[trigger]
                    offsets@.contains(x) <==> exists|m: int| 0 <= m < n && vs[m].byte_offset == x,
                forall|b: int|
                    0 <= b < j ==> (#[trigger] vs[i as int].child_refs[b]).1 == CHILD_REF_EMPTY
                        || is_node_offset(vs, vs[i as int].child_refs[b].1 as int),
            decreases k - j,
        {
            let (_octant, ref_offset) = node.child_refs[j];
            if ref_offset != CHILD_REF_EMPTY {
                if !offsets.contains(&(ref_offset as usize)) {
                    proof {
                        let ghost x = ref_offset as usize;
                        assert(!offsets@.contains(x));
                        assert(!is_node_offset(vs, vs[i as int].child_refs[j as int].1 as int));
                        assert(!octr_refs_ok(vs, plst_size as int));
                    }
                    return Err(parse_error("PVO OCTR child reference is not a node offset"));
                }
                proof {
                    let ghost x = ref_offset as usize;
                    assert(offsets@.contains(x));
                    let m = choose|m: int| 0 <= m < n && vs[m].byte_offset == x;
                    assert(vs[m].byte_offset == vs[i as int].child_refs[j as int].1);
                }
            }
            j += 1;
        }
        if node.leaf_ref != LEAF_REF_NONE && node.leaf_ref as u64 >= plst_size as u64 {
            assert(!octr_refs_ok(vs, plst_size as int));
            return Err(parse_error("PVO OCTR leaf reference outside the PLST payload"));
        }
        i += 1;
    }
    Ok(())
}

/// Checks that every `PLST` run lies within the `MLST` table.
fn validate_plst_ranges(mlst_polygon_count: u32, plst_leaves: &[PlstLeaf]) -> (r: Result<()>)
    ensures
        r is Ok <==> plst_ranges_ok(leaf_views(plst_leaves@), mlst_polygon_count as int),
        r matches Err(e) ==> e is Parse,
{
    let n: usize = plst_leaves.len();
    let ghost vs = leaf_views(plst_leaves@);
    let mut i: usize = 0;
    while i < n
        invariant
            n == plst_leaves@.len() == vs.len(),
            vs == leaf_views(plst_leaves@),
            i <= n,
            forall|a: int, b: int|
                0 <= a < i && 0 <= b < vs[a].entries.len() ==> (#[trigger] vs[a].entries[b]).mlst_start
                    + vs[a].entries[b].count <= mlst_polygon_count,
        decreases n - i,
    {
        let leaf = &plst_leaves[i];
        assert(vs[i as int] == leaf@);
        let k: usize = leaf.entries.len();
        let mut j: usize = 0;
        while j < k
            invariant
                n == plst_leaves@.len() == vs.len(),
                vs == leaf_views(plst_leaves@),
                i < n,
                vs[i as int] == leaf@,
                k == leaf.entries@.len(),
                j <= k,
                forall|b: int|
                    0 <= b < j ==> (#[trigger] vs[i as int].entries[b]).mlst_start + vs[i as int].entries[b].count
                        <= mlst_polygon_count,
            decreases k - j,
        {
            let entry = &leaf.entries[j];
            let end: u64 = entry.mlst_start as u64 + entry.count as u64;
            if end > mlst_polygon_count as u64 {
                assert(vs[i as int].entries[j as int] == *entry);
                return Err(parse_error("PVO PLST entry overflows MLST"));
            }
            j += 1;
        }
        i += 1;
    }
    Ok(())
}

/// Parses a collision octree file. Section order: `OCTH` → `OCTR` → `PLST` →
/// `MLST` → `END `; every count and reference is checked against the others.
pub fn parse_pvo_file(data: &[u8]) -> (r: Result<PvoFile>)
    ensures
        r is Ok <==> pvo_ok(data@),
        r matches Ok(f) ==> {
            &&& pvo_header_at(f.header, data@, 8)
            &&& node_views(f.octr_nodes@) == pvo_nodes(data@)
            &&& leaf_views(f.plst_leaves@) == pvo_leaves(data@)
            &&& f.mlst_indices@ == mlst_values(sec_payload(data@, pvo_c3(data@)))
        },
        r matches Ok(f) ==> f.header.leaf_nodes <= f.header.total_nodes && f.octr_nodes@.filter(
            |n: OctrNode| node_is_interior(n),
        ).len() == f.header.total_nodes - f.header.leaf_nodes,
        r matches Err(e) ==> e is Parse,
{
    if data.len() < 16 {
        return Err(parse_error("PVO file too small"));
    }
    let mut cursor: usize = 0;
    let header = parse_octh_section(data, &mut cursor)?;
    let octr_payload = read_section_payload(data, &mut cursor, 0x4F, 0x43, 0x54, 0x52)?;
    let octr_nodes = parse_octr_nodes(octr_payload, header.total_nodes)?;
    let plst_payload = read_section_payload(data, &mut cursor, 0x50, 0x4C, 0x53, 0x54)?;
    let plst_leaves = parse_plst_leaves(plst_payload)?;
    let mlst_payload = read_section_payload(data, &mut cursor, 0x4D, 0x4C, 0x53, 0x54)?;
    let mlst_indices = parse_mlst_indices(mlst_payload)?;
    if header.mlst_polygon_count as u64 != mlst_indices.len() as u64 {
        return Err(parse_error("PVO header mlst_polygon_count does not match MLST"));
    }
    validate_end_section(data, cursor)?;
    validate_leaf_count(&header, octr_nodes.as_slice())?;
    validate_node_refs(plst_payload.len(), octr_nodes.as_slice())?;
    validate_plst_ranges(header.mlst_polygon_count, plst_leaves.as_slice())?;
    proof {
        lemma_interior_plus_leaf(octr_nodes@);
    }
    Ok(PvoFile { header, octr_nodes, plst_leaves, mlst_indices })
}

/// Every node either carries leaf data or is interior: the interior nodes
/// and the nodes with leaf data together are all the nodes.
pub proof fn lemma_interior_plus_leaf(s: Seq<OctrNode>)
    ensures
        s.filter(|n: OctrNode| node_is_interior(n)).len() + leaf_data_count(node_views(s)) == s.len(),
    decreases s.len(),
{
    reveal_with_fuel(Seq::<_>::filter, 1);
    if s.len() > 0 {
        lemma_interior_plus_leaf(s.drop_last());
        assert(node_views(s).drop_last() =~= node_views(s.drop_last()));
        assert(node_views(s).last() == s.last()@);
    }
}

/// Where the collision octree header puts its counts, as little-endian
/// 32-bit numbers from header offset `o`: depth at 0, total nodes at 4,
/// nodes with leaf data at 8, polygon indices at 12, and the root cell size
/// at 20; the root centre x, y, z are signed 32-bit numbers at 24, 28, 32.
pub proof fn law_pvo_header_layout(h: PvoHeader, d: Seq<u8>, o: int)
    requires
        0 <= o,
        o + 52 <= d.len(),
        pvo_header_at(h, d, o),
    ensures
        h.depth == d[o] + 256 * d[o + 1] + 65536 * d[o + 2] + 16777216 * d[o + 3],
        h.total_nodes == d[o + 4] + 256 * d[o + 5] + 65536 * d[o + 6] + 16777216 * d[o + 7],
        h.leaf_nodes == d[o + 8] + 256 * d[o + 9] + 65536 * d[o + 10] + 16777216 * d[o + 11],
        h.mlst_polygon_count == d[o + 12] + 256 * d[o + 13] + 65536 * d[o + 14] + 16777216 * d[o + 15],
        h.cell_size == d[o + 20] + 256 * d[o + 21] + 65536 * d[o + 22] + 16777216 * d[o + 23],
        h.center_x == crate::bytes::le4_signed(d[o + 24], d[o + 25], d[o + 26], d[o + 27]),
        h.center_y == crate::bytes::le4_signed(d[o + 28], d[o + 29], d[o + 30], d[o + 31]),
        h.center_z == crate::bytes::le4_signed(d[o + 32], d[o + 33], d[o + 34], d[o + 35]),
{
}

} // verus!
