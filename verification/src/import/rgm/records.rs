//! Record lists of the scene's animation-file, sprite, marker, walk-map,
//! footstep, location and bounds sections.
use super::parser::{read_i24, read_u24, spec_i24, spec_i32, spec_u24};
use crate::bytes::{first_zero_from, read_i16_le, read_i32_le, read_u16_le, read_u32_le, spec_i16_of, spec_u16_le, spec_u32_le};
use crate::text::{lossy_string, utf8_lossy};
use vstd::prelude::*;

verus! {

/// An animation file an actor uses: frame count, model type and path.
#[derive(Debug, Clone)]
pub struct RaanEntry {
    pub frame_count: u8,
    pub model_type: u8,
    pub file_path: String,
}

/// Animation files of an actor, up to `k` of them from `c`: two header
/// bytes at +4 and +5, then a zero-terminated path from +6. Reading stops at
/// an entry that does not fit or whose path is not terminated.
pub open spec fn raan_from(d: Seq<u8>, c: int, k: nat) -> Seq<(u8, u8, Seq<char>)>
    decreases k,
{
    if k == 0 || c < 0 || c + 6 > d.len() {
        Seq::empty()
    } else {
        let z = first_zero_from(d, c + 6);
        if z >= d.len() {
            Seq::empty()
        } else {
            seq![(d[c + 4], d[c + 5], utf8_lossy(d.subrange(c + 6, z)))] + raan_from(d, z + 1, (k - 1) as nat)
        }
    }
}

/// An entry as values.
pub open spec fn raan_view(e: RaanEntry) -> (u8, u8, Seq<char>) {
    (e.frame_count, e.model_type, e.file_path@)
}

/// Reads up to `count` animation-file entries from `offset`.
pub fn parse_raan_entries(data: &[u8], offset: usize, count: usize) -> (r: Vec<RaanEntry>)
    ensures
        r@.map_values(|e: RaanEntry| raan_view(e)) == raan_from(data@, offset as int, count as nat),
{
    let n: usize = data.len();
    let mut out: Vec<RaanEntry> = Vec::new();
    let mut cursor: usize = offset;
    let mut left: usize = count;
    loop
        invariant
            n == data@.len(),
            raan_from(data@, offset as int, count as nat) == out@.map_values(|e: RaanEntry| raan_view(e)) + raan_from(
                data@,
                cursor as int,
                left as nat,
            ),
        decreases left,
    {
        if left == 0 || n < 6 || cursor > n - 6 {
            assert(out@.map_values(|e: RaanEntry| raan_view(e)) + raan_from(data@, cursor as int, left as nat)
                =~= out@.map_values(|e: RaanEntry| raan_view(e)));
            return out;
        }
        let path_start = cursor + 6;
        let mut end: usize = path_start;
        while end < n && data[end] != 0
            invariant
                path_start <= end <= n == data@.len(),
                first_zero_from(data@, path_start as int) == first_zero_from(data@, end as int),
            decreases n - end,
        {
            end += 1;
        }
        if end >= n {
            assert(out@.map_values(|e: RaanEntry| raan_view(e)) + raan_from(data@, cursor as int, left as nat)
                =~= out@.map_values(|e: RaanEntry| raan_view(e)));
            return out;
        }
        let e = RaanEntry {
            frame_count: data[cursor + 4],
            model_type: data[cursor + 5],
            file_path: lossy_string(vstd::slice::slice_subrange(data, path_start, end)),
        };
        let ghost before = out@;
        out.push(e);
        assert(out@.map_values(|e: RaanEntry| raan_view(e)) =~= before.map_values(|e: RaanEntry| raan_view(e)).push(
            raan_view(e),
        ));
        assert(out@.map_values(|e: RaanEntry| raan_view(e)) + raan_from(data@, end + 1, (left - 1) as nat)
            =~= before.map_values(|e: RaanEntry| raan_view(e)) + raan_from(data@, cursor as int, left as nat));
        cursor = end + 1;
        left = left - 1;
    }
}

/// A flat sprite: id, fixed-point position and texture.
#[derive(Debug, Clone, Copy)]
pub struct MpfRecord {
    pub id: u32,
    pub pos_x: i32,
    pub pos_y: i32,
    pub pos_z: u32,
    /// Upper nine bits of the texture field.
    pub texture_id: u16,
    /// Lower seven bits of the texture field.
    pub image_id: u16,
}

/// Records in a section that starts with a 32-bit count: the count, as far
/// as whole records of `size` bytes follow it.
pub open spec fn counted_records(d: Seq<u8>, size: int) -> int {
    if d.len() < 4 {
        0
    } else {
        let avail = (d.len() - 4) / size;
        if spec_u32_le(d, 0) < avail {
            spec_u32_le(d, 0)
        } else {
            avail
        }
    }
}

/// The sprite record at `c`.
pub open spec fn mpf_at(d: Seq<u8>, c: int) -> MpfRecord {
    let td = spec_u16_le(d, c + 20);
    MpfRecord {
        id: spec_u32_le(d, c) as u32,
        pos_x: spec_i24(d, c + 8) as i32,
        pos_y: spec_i24(d, c + 12) as i32,
        pos_z: spec_u24(d, c + 16) as u32,
        texture_id: (td / 128) as u16,
        image_id: (td % 128) as u16,
    }
}

fn counted(d: &[u8], size: usize) -> (r: usize)
    requires
        size > 0,
    ensures
        r == counted_records(d@, size as int),
        d@.len() >= 4 ==> 4 + r * size <= d@.len(),
{
    let n: usize = d.len();
    if n < 4 {
        return 0;
    }
    let count = read_u32_le(d, 0) as usize;
    let avail: usize = (n - 4) / size;
    let r: usize = if count < avail {
        count
    } else {
        avail
    };
    let ghost m: int = n - 4;
    assert(4 + r * size <= n) by (nonlinear_arith)
        requires
            r <= avail,
            avail == m / (size as int),
            m == n - 4,
            size > 0,
    ;
    r
}

/// Reads the flat sprites of an `MPF` section.
pub fn parse_mpf_records(data: &[u8]) -> (r: Vec<MpfRecord>)
    ensures
        r@ == Seq::new(counted_records(data@, 24) as nat, |i: int| mpf_at(data@, 4 + 24 * i)),
{
    let n: usize = data.len();
    let count = counted(data, 24);
    let mut out: Vec<MpfRecord> = Vec::new();
    let mut i: usize = 0;
    while i < count
        invariant
            n == data@.len(),
            count == counted_records(data@, 24),
            count > 0 ==> 4 + count * 24 <= n,
            i <= count,
            out@ =~= Seq::new(i as nat, |k: int| mpf_at(data@, 4 + 24 * k)),
        decreases count - i,
    {
        assert(4 + 24 * i + 24 <= n) by (nonlinear_arith)
            requires
                i < count,
                4 + count * 24 <= n,
        ;
        let c: usize = 4 + 24 * i;
        let td = read_u16_le(data, c + 20);
        out.push(
            MpfRecord {
                id: read_u32_le(data, c),
                pos_x: read_i24(data, c + 8),
                pos_y: read_i24(data, c + 12),
                pos_z: read_u24(data, c + 16),
                texture_id: td / 128,
                image_id: td % 128,
            },
        );
        i += 1;
    }
    out
}

/// A marker: fixed-point position and a reserved byte.
#[derive(Debug, Clone, Copy)]
pub struct MpmRecord {
    pub pos_x: i32,
    pub pos_y: i32,
    pub pos_z: u32,
    pub reserved: u8,
}

/// The marker record at `c`.
pub open spec fn mpm_at(d: Seq<u8>, c: int) -> MpmRecord {
    MpmRecord {
        pos_x: spec_i24(d, c) as i32,
        pos_y: spec_i24(d, c + 4) as i32,
        pos_z: spec_u24(d, c + 8) as u32,
        reserved: d[c + 12],
    }
}

/// Reads the markers of an `MPM` section.
pub fn parse_mpm_records(data: &[u8]) -> (r: Vec<MpmRecord>)
    ensures
        r@ == Seq::new(counted_records(data@, 13) as nat, |i: int| mpm_at(data@, 4 + 13 * i)),
{
    let n: usize = data.len();
    let count = counted(data, 13);
    let mut out: Vec<MpmRecord> = Vec::new();
    let mut i: usize = 0;
    while i < count
        invariant
            n == data@.len(),
            count == counted_records(data@, 13),
            count > 0 ==> 4 + count * 13 <= n,
            i <= count,
            out@ =~= Seq::new(i as nat, |k: int| mpm_at(data@, 4 + 13 * k)),
        decreases count - i,
    {
        assert(4 + 13 * i + 13 <= n) by (nonlinear_arith)
            requires
                i < count,
                4 + count * 13 <= n,
        ;
        let c: usize = 4 + 13 * i;
        out.push(
            MpmRecord {
                pos_x: read_i24(data, c),
                pos_y: read_i24(data, c + 4),
                pos_z: read_u24(data, c + 8),
                reserved: data[c + 12],
            },
        );
        i += 1;
    }
    out
}

/// A route from a walk node: target node and cost.
#[derive(Debug, Clone, Copy)]
pub struct WdnmRoute {
    pub target_node_id: u16,
    pub cost: u16,
}

/// A walk node: its declared length, position, and routes.
#[derive(Debug, Clone)]
pub struct WdnmNode {
    pub node_length: u32,
    pub node_pos_x: u16,
    pub node_pos_y: i16,
    pub node_pos_z: u16,
    pub reserved: u8,
    /// The declared route count; fewer routes are read when the data ends.
    pub route_count: usize,
    pub routes: Vec<WdnmRoute>,
}

/// A walk map: its header and nodes.
#[derive(Debug, Clone)]
pub struct WdnmMap {
    pub map_length: u32,
    pub node_count: u32,
    pub node_count_dup: u32,
    pub pos_x: i32,
    pub pos_y: i32,
    pub pos_z: u32,
    pub radius: u32,
    pub walk_nodes: Vec<WdnmNode>,
}

/// A walk node as values.
pub struct WdnmNodeView {
    pub node_length: u32,
    pub node_pos_x: u16,
    pub node_pos_y: i16,
    pub node_pos_z: u16,
    pub reserved: u8,
    pub route_count: usize,
    pub routes: Seq<WdnmRoute>,
}

/// A walk map as values.
pub struct WdnmMapView {
    pub map_length: u32,
    pub node_count: u32,
    pub node_count_dup: u32,
    pub pos_x: i32,
    pub pos_y: i32,
    pub pos_z: u32,
    pub radius: u32,
    pub walk_nodes: Seq<WdnmNodeView>,
}

impl View for WdnmNode {
    type V = WdnmNodeView;

    open spec fn view(&self) -> WdnmNodeView {
        WdnmNodeView {
            node_length: self.node_length,
            node_pos_x: self.node_pos_x,
            node_pos_y: self.node_pos_y,
            node_pos_z: self.node_pos_z,
            reserved: self.reserved,
            route_count: self.route_count,
            routes: self.routes@,
        }
    }
}

impl View for WdnmMap {
    type V = WdnmMapView;

    open spec fn view(&self) -> WdnmMapView {
        WdnmMapView {
            map_length: self.map_length,
            node_count: self.node_count,
            node_count_dup: self.node_count_dup,
            pos_x: self.pos_x,
            pos_y: self.pos_y,
            pos_z: self.pos_z,
            radius: self.radius,
            walk_nodes: self.walk_nodes@.map_values(|n: WdnmNode| n@),
        }
    }
}

/// Routes that are read from `c`: up to `k`, as far as whole 4-byte routes fit.
pub open spec fn routes_read(d: Seq<u8>, c: int, k: int) -> int {
    let avail: int = if c <= d.len() {
        (d.len() - c) / 4
    } else {
        0
    };
    if k < avail {
        k
    } else {
        avail
    }
}

/// Where the next node starts after the node at `s`: after its routes, or
/// at `s` plus its declared length when that lies further and within the data.
pub open spec fn node_next(d: Seq<u8>, s: int) -> int {
    let after = s + 12 + 4 * routes_read(d, s + 12, d[s + 11] as int);
    let len = spec_u32_le(d, s);
    if len >= 12 && s + len <= d.len() && s + len > after {
        s + len
    } else {
        after
    }
}

/// The node at `s`.
pub open spec fn node_at(d: Seq<u8>, s: int) -> WdnmNodeView {
    WdnmNodeView {
        node_length: spec_u32_le(d, s) as u32,
        node_pos_x: spec_u16_le(d, s + 4) as u16,
        node_pos_y: spec_i16_of(spec_u16_le(d, s + 6)) as i16,
        node_pos_z: spec_u16_le(d, s + 8) as u16,
        reserved: d[s + 10],
        route_count: d[s + 11] as usize,
        routes: Seq::new(
            routes_read(d, s + 12, d[s + 11] as int) as nat,
            |i: int| WdnmRoute {
                target_node_id: spec_u16_le(d, s + 12 + 4 * i) as u16,
                cost: spec_u16_le(d, s + 14 + 4 * i) as u16,
            },
        ),
    }
}

/// Up to `k` nodes from `c`, while a 12-byte node header fits, and where
/// reading stops.
pub open spec fn nodes_from(d: Seq<u8>, c: int, k: nat) -> (Seq<WdnmNodeView>, int)
    decreases k,
{
    if k == 0 || c < 0 || c + 12 > d.len() {
        (Seq::empty(), c)
    } else {
        let (rest, e) = nodes_from(d, node_next(d, c), (k - 1) as nat);
        (seq![node_at(d, c)] + rest, e)
    }
}

/// The map at `c` and where the next one starts: after its nodes, or at
/// `c` plus its declared length when that lies further and within the data.
pub open spec fn map_at(d: Seq<u8>, c: int) -> (WdnmMapView, int) {
    let (nodes, after) = nodes_from(d, c + 0x1C, spec_u32_le(d, c + 4) as nat);
    let len = spec_u32_le(d, c);
    (
        WdnmMapView {
            map_length: len as u32,
            node_count: spec_u32_le(d, c + 4) as u32,
            node_count_dup: spec_u32_le(d, c + 8) as u32,
            pos_x: spec_i24(d, c + 0x0C) as i32,
            pos_y: spec_i24(d, c + 0x10) as i32,
            pos_z: spec_u24(d, c + 0x14) as u32,
            radius: spec_u32_le(d, c + 0x18) as u32,
            walk_nodes: nodes,
        },
        if len >= 0x1C && c + len <= d.len() && c + len > after {
            c + len
        } else {
            after
        },
    )
}

/// Up to `k` maps from `c`, while a 28-byte map header fits.
pub open spec fn maps_from(d: Seq<u8>, c: int, k: nat) -> Seq<WdnmMapView>
    decreases k,
{
    if k == 0 || c < 0 || c + 0x1C > d.len() {
        Seq::empty()
    } else {
        seq![map_at(d, c).0] + maps_from(d, map_at(d, c).1, (k - 1) as nat)
    }
}

/// The walk maps of a `WDNM` section: a 32-bit map count, then the maps.
pub open spec fn wdnm_maps(d: Seq<u8>) -> Seq<WdnmMapView> {
    if d.len() < 4 {
        Seq::empty()
    } else {
        maps_from(d, 4, spec_u32_le(d, 0) as nat)
    }
}

fn read_routes(data: &[u8], start: usize, k: usize) -> (r: Vec<WdnmRoute>)
    requires
        start <= data@.len(),
    ensures
        r@ == Seq::new(
            routes_read(data@, start as int, k as int) as nat,
            |i: int| WdnmRoute {
                target_node_id: spec_u16_le(data@, start + 4 * i) as u16,
                cost: spec_u16_le(data@, start + 2 + 4 * i) as u16,
            },
        ),
{
    let n: usize = data.len();
    let avail: usize = (n - start) / 4;
    let count: usize = if k < avail {
        k
    } else {
        avail
    };
    let mut out: Vec<WdnmRoute> = Vec::new();
    let mut i: usize = 0;
    while i < count
        invariant
            n == data@.len(),
            start <= n,
            avail == (n - start) / 4,
            count <= avail,
            i <= count,
            out@ =~= Seq::new(
                i as nat,
                |j: int| WdnmRoute {
                    target_node_id: spec_u16_le(data@, start + 4 * j) as u16,
                    cost: spec_u16_le(data@, start + 2 + 4 * j) as u16,
                },
            ),
        decreases count - i,
    {
        let ghost m: int = n - start;
        assert(4 * i + 4 <= m) by (nonlinear_arith)
            requires
                i < avail,
                avail == m / 4,
        ;
        let c: usize = start + 4 * i;
        out.push(WdnmRoute { target_node_id: read_u16_le(data, c), cost: read_u16_le(data, c + 2) });
        i += 1;
    }
    out
}

fn read_node(data: &[u8], s: usize) -> (r: (WdnmNode, usize))
    requires
        s + 12 <= data@.len(),
    ensures
        r.0@ == node_at(data@, s as int),
        r.1 == node_next(data@, s as int),
        r.1 <= data@.len(),
{
    let n: usize = data.len();
    let node_length = read_u32_le(data, s);
    let route_count = data[s + 11] as usize;
    let routes = read_routes(data, s + 12, route_count);
    let ghost m: int = n - (s + 12);
    assert(4 * routes@.len() <= m) by (nonlinear_arith)
        requires
            routes@.len() <= m / 4,
            m >= 0,
    ;
    let after: usize = s + 12 + 4 * routes.len();
    let next: usize = if node_length >= 12 && (node_length as usize) <= n - s && s + node_length as usize > after {
        s + node_length as usize
    } else {
        after
    };
    let node = WdnmNode {
        node_length,
        node_pos_x: read_u16_le(data, s + 4),
        node_pos_y: read_i16_le(data, s + 6),
        node_pos_z: read_u16_le(data, s + 8),
        reserved: data[s + 10],
        route_count,
        routes,
    };
    assert(node@.routes =~= node_at(data@, s as int).routes);
    (node, next)
}

fn read_nodes(data: &[u8], start: usize, k: usize) -> (r: (Vec<WdnmNode>, usize))
    requires
        start <= data@.len(),
    ensures
        r.0@.map_values(|n: WdnmNode| n@) == nodes_from(data@, start as int, k as nat).0,
        r.1 == nodes_from(data@, start as int, k as nat).1,
        r.1 <= data@.len(),
{
    let n: usize = data.len();
    let mut out: Vec<WdnmNode> = Vec::new();
    let mut c: usize = start;
    let mut left: usize = k;
    loop
        invariant
            n == data@.len(),
            c <= n,
            nodes_from(data@, start as int, k as nat).0 == out@.map_values(|n: WdnmNode| n@) + nodes_from(
                data@,
                c as int,
                left as nat,
            ).0,
            nodes_from(data@, start as int, k as nat).1 == nodes_from(data@, c as int, left as nat).1,
        decreases left,
    {
        if left == 0 || n - c < 12 {
            assert(out@.map_values(|n: WdnmNode| n@) + nodes_from(data@, c as int, left as nat).0 =~= out@.map_values(
                |n: WdnmNode| n@,
            ));
            return (out, c);
        }
        let (node, next) = read_node(data, c);
        let ghost before = out@;
        out.push(node);
        assert(out@.map_values(|n: WdnmNode| n@) =~= before.map_values(|n: WdnmNode| n@).push(node@));
        assert(before.map_values(|n: WdnmNode| n@) + nodes_from(data@, c as int, left as nat).0 =~= out@.map_values(
            |n: WdnmNode| n@,
        ) + nodes_from(data@, next as int, (left - 1) as nat).0);
        c = next;
        left = left - 1;
    }
}

/// Reads the walk maps of a `WDNM` section.
pub fn parse_wdnm_maps(data: &[u8]) -> (r: Vec<WdnmMap>)
    ensures
        r@.map_values(|m: WdnmMap| m@) == wdnm_maps(data@),
{
    let n: usize = data.len();
    let mut out: Vec<WdnmMap> = Vec::new();
    if n < 4 {
        assert(out@.map_values(|m: WdnmMap| m@) =~= wdnm_maps(data@));
        return out;
    }
    let mut left: usize = read_u32_le(data, 0) as usize;
    let mut c: usize = 4;
    loop
        invariant
            n == data@.len(),
            4 <= n,
            c <= n,
            wdnm_maps(data@) == out@.map_values(|m: WdnmMap| m@) + maps_from(data@, c as int, left as nat),
        decreases left,
    {
        if left == 0 || n - c < 0x1C {
            assert(out@.map_values(|m: WdnmMap| m@) + maps_from(data@, c as int, left as nat) =~= out@.map_values(
                |m: WdnmMap| m@,
            ));
            return out;
        }
        let map_length = read_u32_le(data, c);
        let node_count = read_u32_le(data, c + 4);
        let (nodes, after) = read_nodes(data, c + 0x1C, node_count as usize);
        let next: usize = if map_length >= 0x1C && (map_length as usize) <= n - c && c + map_length as usize > after {
            c + map_length as usize
        } else {
            after
        };
        let map = WdnmMap {
            map_length,
            node_count,
            node_count_dup: read_u32_le(data, c + 8),
            pos_x: read_i24(data, c + 0x0C),
            pos_y: read_i24(data, c + 0x10),
            pos_z: read_u24(data, c + 0x14),
            radius: read_u32_le(data, c + 0x18),
            walk_nodes: nodes,
        };
        assert(map@ == map_at(data@, c as int).0);
        assert(next == map_at(data@, c as int).1);
        let ghost before = out@;
        out.push(map);
        assert(out@.map_values(|m: WdnmMap| m@) =~= before.map_values(|m: WdnmMap| m@).push(map@));
        assert(before.map_values(|m: WdnmMap| m@) + maps_from(data@, c as int, left as nat) =~= out@.map_values(
            |m: WdnmMap| m@,
        ) + maps_from(data@, next as int, (left - 1) as nat));
        c = next;
        left = left - 1;
    }
}

/// The 11-byte footstep entries of a `RAFS` payload (none when it holds
/// 10 bytes or fewer).
pub open spec fn rafs_entries(d: Seq<u8>) -> Seq<Seq<u8>> {
    Seq::new(
        (if d.len() <= 10 {
            0
        } else {
            d.len() / 11
        }) as nat,
        |i: int| d.subrange(11 * i, 11 * i + 11),
    )
}

/// Reads the 11-byte footstep entries of a `RAFS` section.
pub fn parse_rafs_entries(data: &[u8]) -> (r: Vec<Vec<u8>>)
    ensures
        r@.map_values(|v: Vec<u8>| v@) == rafs_entries(data@),
{
    let n: usize = data.len();
    let mut out: Vec<Vec<u8>> = Vec::new();
    if n <= 10 {
        assert(out@.map_values(|v: Vec<u8>| v@) =~= rafs_entries(data@));
        return out;
    }
    let count: usize = n / 11;
    let mut i: usize = 0;
    while i < count
        invariant
            n == data@.len(),
            count == n / 11,
            i <= count,
            out@.len() == i,
            forall|k: int| 0 <= k < i ==> (#[trigger] out@[k])@ == data@.subrange(11 * k, 11 * k + 11),
        decreases count - i,
    {
        assert(11 * i + 11 <= n) by (nonlinear_arith)
            requires
                i < count,
                count == n / 11,
        ;
        out.push(crate::bytes::copy_range(data, 11 * i, 11 * i + 11));
        i += 1;
    }
    assert(out@.map_values(|v: Vec<u8>| v@) =~= rafs_entries(data@));
    out
}

/// Bounds of an actor's collision volume: extents and offset per axis, and flags.
#[derive(Debug, Clone, Copy)]
pub struct MpszEntry {
    pub index: usize,
    pub total_extent: [i32; 3],
    pub center_offset: [i32; 3],
    pub neg_extent: [i32; 3],
    pub pos_extent: [i32; 3],
    pub flags: u8,
}

/// Three signed 32-bit fields from `c`.
pub open spec fn triple_at(d: Seq<u8>, c: int) -> Seq<i32> {
    seq![spec_i32(d, c), spec_i32(d, c + 4), spec_i32(d, c + 8)]
}

fn read_triple(d: &[u8], c: usize) -> (r: [i32; 3])
    requires
        c + 12 <= d@.len(),
    ensures
        r@ == triple_at(d@, c as int),
{
    let n: usize = d.len();
    assert(c + 12 <= n);
    let r = [read_i32_le(d, c), read_i32_le(d, c + 4), read_i32_le(d, c + 8)];
    assert(r@ =~= triple_at(d@, c as int));
    r
}

/// A bounds record as values.
pub open spec fn mpsz_view(e: MpszEntry) -> (int, Seq<i32>, Seq<i32>, Seq<i32>, Seq<i32>, u8) {
    (e.index as int, e.total_extent@, e.center_offset@, e.neg_extent@, e.pos_extent@, e.flags)
}

/// The bounds records of an `MPSZ` payload: one per whole 49 bytes.
pub open spec fn mpsz_entries(d: Seq<u8>) -> Seq<(int, Seq<i32>, Seq<i32>, Seq<i32>, Seq<i32>, u8)> {
    Seq::new(
        (d.len() / 49) as nat,
        |i: int| (i, triple_at(d, 49 * i), triple_at(d, 49 * i + 0x0C), triple_at(d, 49 * i + 0x18), triple_at(d, 49 * i + 0x24), d[49 * i + 0x30]),
    )
}

/// Reads the 49-byte bounds records of an `MPSZ` section.
pub fn parse_mpsz_entries(data: &[u8]) -> (r: Vec<MpszEntry>)
    ensures
        r@.map_values(|e: MpszEntry| mpsz_view(e)) == mpsz_entries(data@),
{
    let n: usize = data.len();
    let count: usize = n / 49;
    let mut out: Vec<MpszEntry> = Vec::new();
    let mut i: usize = 0;
    while i < count
        invariant
            n == data@.len(),
            count == n / 49,
            i <= count,
            out@.len() == i,
            forall|k: int| 0 <= k < i ==> mpsz_view(#[trigger] out@[k]) == mpsz_entries(data@)[k],
        decreases count - i,
    {
        assert(49 * i + 49 <= n) by (nonlinear_arith)
            requires
                i < count,
                count == n / 49,
        ;
        let c: usize = 49 * i;
        out.push(
            MpszEntry {
                index: i,
                total_extent: read_triple(data, c),
                center_offset: read_triple(data, c + 0x0C),
                neg_extent: read_triple(data, c + 0x18),
                pos_extent: read_triple(data, c + 0x24),
                flags: data[c + 0x30],
            },
        );
        i += 1;
    }
    assert(out@.map_values(|e: MpszEntry| mpsz_view(e)) =~= mpsz_entries(data@));
    out
}

/// The location offsets (x, y, z) of a `RALC` payload: one per whole 12 bytes.
pub open spec fn ralc_locations(d: Seq<u8>) -> Seq<Seq<i32>> {
    Seq::new((d.len() / 12) as nat, |i: int| triple_at(d, 12 * i))
}

/// Reads the 12-byte location offsets of a `RALC` section.
pub fn parse_ralc_locations(data: &[u8]) -> (r: Vec<[i32; 3]>)
    ensures
        r@.map_values(|a: [i32; 3]| a@) == ralc_locations(data@),
{
    let n: usize = data.len();
    let count: usize = n / 12;
    let mut out: Vec<[i32; 3]> = Vec::new();
    let mut i: usize = 0;
    while i < count
        invariant
            n == data@.len(),
            count == n / 12,
            i <= count,
            out@.len() == i,
            forall|k: int| 0 <= k < i ==> (#[trigger] out@[k])@ == triple_at(data@, 12 * k),
        decreases count - i,
    {
        assert(12 * i + 12 <= n) by (nonlinear_arith)
            requires
                i < count,
                count == n / 12,
        ;
        out.push(read_triple(data, 12 * i));
        i += 1;
    }
    assert(out@.map_values(|a: [i32; 3]| a@) =~= ralc_locations(data@));
    out
}

} // verus!
