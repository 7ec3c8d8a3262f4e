//! Animation commands and actor indexes.
use super::records::{
    counted_records, mpf_at, mpm_at, mpsz_entries, mpsz_view, parse_mpf_records, parse_mpm_records,
    parse_mpsz_entries, parse_raan_entries, parse_rafs_entries, parse_ralc_locations, parse_wdnm_maps, raan_from,
    raan_view, rafs_entries, ralc_locations, wdnm_maps, MpfRecord, MpmRecord, MpszEntry, RaanEntry, WdnmMap,
    WdnmMapView,
};
use super::script::soup_opt;
use super::{
    first_part, first_part_data, MpobRecord, MprpRecord, MpsRecord, MpslRecord, RaexRecord, RagrAnimGroup, RagrCommand,
    RavcRecord, RgmFile, RgmSection, SectionPart,
};
use crate::bytes::first_zero_from;
use crate::import::soup_def::{SoupDef, SoupModel};
use crate::text::{dec_nat, lossy_string, push_dec, push_str_chars, string_from_chars};
use crate::bytes::{read_i32_le, read_u16_le, read_u32_le, spec_i32_of, spec_u16_le, spec_u32_le};
use crate::text::{nul_trimmed_string, trim_nul, utf8_lossy};
use vstd::prelude::*;

verus! {

/// Size of an actor record in the `RAHD` section.
pub const RAHD_ITEM_SIZE: usize = 165;

/// `2^k` for the field widths used by the commands.
pub open spec fn pow2(k: nat) -> nat
    decreases k,
{
    if k == 0 { 1 } else { 2 * pow2((k - 1) as nat) }
}

/// Bits `shift..shift + bits` of `raw`.
pub open spec fn bit_field(raw: u32, shift: nat, bits: nat) -> int {
    (raw as int / pow2(shift) as int) % (pow2(bits) as int)
}

/// A `bits`-wide two's-complement field read as a signed number.
pub open spec fn signed_field(raw: u32, shift: nat, bits: nat) -> int {
    let v = bit_field(raw, shift, bits);
    if v >= pow2((bits - 1) as nat) { v - pow2(bits) } else { v }
}

fn signed_bits(raw: u32, div: u32, modulus: u32) -> (r: i32)
    requires
        div > 0,
        modulus >= 2,
        modulus % 2 == 0,
        modulus <= 0x10_0000,
    ensures
        r == (if (raw / div) % modulus >= modulus / 2 {
            ((raw / div) % modulus) as int - modulus as int
        } else {
            ((raw / div) % modulus) as int
        }),
{
    let v: u32 = (raw / div) % modulus;
    if v >= modulus / 2 {
        (v as i32) - (modulus as i32)
    } else {
        v as i32
    }
}

proof fn lemma_pow2_values()
    ensures
        pow2(1) == 2,
        pow2(2) == 4,
        pow2(4) == 16,
        pow2(5) == 32,
        pow2(6) == 64,
        pow2(7) == 128,
        pow2(9) == 512,
        pow2(10) == 1024,
        pow2(14) == 16384,
        pow2(16) == 65536,
        pow2(17) == 131072,
        pow2(18) == 262144,
        pow2(19) == 524288,
        pow2(20) == 1048576,
{
    reveal_with_fuel(pow2, 21);
}

impl RagrCommand {
    /// Signed 10-bit parameter at bits 4..14.
    pub fn param_10a(&self) -> (r: i16)
        ensures
            r == signed_field(self.raw, 4, 10),
    {
        proof { lemma_pow2_values(); }
        signed_bits(self.raw, 16, 1024) as i16
    }

    /// Signed 10-bit parameter at bits 14..24.
    pub fn param_10b(&self) -> (r: i16)
        ensures
            r == signed_field(self.raw, 14, 10),
    {
        proof { lemma_pow2_values(); }
        signed_bits(self.raw, 16384, 1024) as i16
    }

    /// Signed 6-bit parameter at bits 4..10.
    pub fn param_6a(&self) -> (r: i16)
        ensures
            r == signed_field(self.raw, 4, 6),
    {
        proof { lemma_pow2_values(); }
        signed_bits(self.raw, 16, 64) as i16
    }

    /// Signed 6-bit parameter at bits 10..16.
    pub fn param_6b(&self) -> (r: i16)
        ensures
            r == signed_field(self.raw, 10, 6),
    {
        proof { lemma_pow2_values(); }
        signed_bits(self.raw, 1024, 64) as i16
    }

    /// Signed 6-bit parameter at bits 16..22.
    pub fn param_6c(&self) -> (r: i16)
        ensures
            r == signed_field(self.raw, 16, 6),
    {
        proof { lemma_pow2_values(); }
        signed_bits(self.raw, 65536, 64) as i16
    }

    /// Unsigned 2-bit parameter at bits 4..6.
    pub fn param_2(&self) -> (r: u8)
        ensures
            r == bit_field(self.raw, 4, 2),
    {
        proof { lemma_pow2_values(); }
        ((self.raw / 16) % 4) as u8
    }

    /// Signed 18-bit parameter at bits 6..24.
    pub fn param_18(&self) -> (r: i32)
        ensures
            r == signed_field(self.raw, 6, 18),
    {
        proof { lemma_pow2_values(); }
        signed_bits(self.raw, 64, 0x4_0000)
    }

    /// Signed 6-bit parameter at bits 4..10.
    pub fn param_6(&self) -> (r: i16)
        ensures
            r == signed_field(self.raw, 4, 6),
    {
        proof { lemma_pow2_values(); }
        signed_bits(self.raw, 16, 64) as i16
    }

    /// Signed 7-bit parameter at bits 10..17.
    pub fn param_7a(&self) -> (r: i16)
        ensures
            r == signed_field(self.raw, 10, 7),
    {
        proof { lemma_pow2_values(); }
        signed_bits(self.raw, 1024, 128) as i16
    }

    /// Signed 7-bit parameter at bits 17..24.
    pub fn param_7b(&self) -> (r: i16)
        ensures
            r == signed_field(self.raw, 17, 7),
    {
        proof { lemma_pow2_values(); }
        signed_bits(self.raw, 131072, 128) as i16
    }

    /// Signed 20-bit parameter at bits 4..24.
    pub fn param_20(&self) -> (r: i32)
        ensures
            r == signed_field(self.raw, 4, 20),
    {
        proof { lemma_pow2_values(); }
        signed_bits(self.raw, 16, 0x10_0000)
    }

    /// Attachment handle of a `ShowFrame` command (the first 10-bit parameter).
    pub fn handle_index(&self) -> (r: i16)
        ensures
            r == signed_field(self.raw, 4, 10),
    {
        self.param_10a()
    }

    /// Attachment vertex of a `ShowFrame` command (the second 10-bit parameter).
    pub fn vertex_index(&self) -> (r: i16)
        ensures
            r == signed_field(self.raw, 14, 10),
    {
        self.param_10b()
    }

    /// Only `ShowFrame` (opcode 0) sets the attachment point.
    pub fn sets_attachment(&self) -> (r: bool)
        ensures
            r == (self.opcode == 0),
    {
        self.opcode == 0
    }
}

/// The command stored little-endian in three bytes; its opcode is the low nibble.
pub open spec fn ragr_command_of(b0: u8, b1: u8, b2: u8) -> RagrCommand {
    let raw = b0 + b1 * 256 + b2 * 65536;
    RagrCommand { raw: raw as u32, opcode: (raw % 16) as u8 }
}

/// The 24-bit pattern of a command with opcode `op` and two 10-bit
/// two's-complement parameters `h` (bits 4..14) and `v` (bits 14..24).
pub open spec fn packed_command(op: int, h: int, v: int) -> int {
    op + 16 * (if h < 0 { h + 1024 } else { h }) + 16384 * (if v < 0 { v + 1024 } else { v })
}

/// A command packed from an opcode and two signed 10-bit parameters, in
/// three little-endian bytes, decodes to that opcode and those parameters
/// (for `ShowFrame`, the attachment handle and vertex).
pub proof fn law_command_round_trip(op: int, h: int, v: int)
    requires
        0 <= op < 16,
        -512 <= h < 512,
        -512 <= v < 512,
    ensures
        ({
            let p = packed_command(op, h, v);
            let c = ragr_command_of((p % 256) as u8, ((p / 256) % 256) as u8, (p / 65536) as u8);
            &&& c.opcode == op
            &&& signed_field(c.raw, 4, 10) == h
            &&& signed_field(c.raw, 14, 10) == v
        }),
{
    lemma_pow2_values();
    let hu: int = if h < 0 { h + 1024 } else { h };
    let vu: int = if v < 0 { v + 1024 } else { v };
    let p = packed_command(op, h, v);
    assert(0 <= p < 16777216) by (nonlinear_arith)
        requires
            p == op + 16 * hu + 16384 * vu,
            0 <= op < 16,
            0 <= hu < 1024,
            0 <= vu < 1024,
    ;
    assert((p % 256) + ((p / 256) % 256) * 256 + (p / 65536) * 65536 == p) by (nonlinear_arith)
        requires
            0 <= p < 16777216,
    ;
    let c = ragr_command_of((p % 256) as u8, ((p / 256) % 256) as u8, (p / 65536) as u8);
    assert(c.raw == p);
    assert(p % 16 == op && (p / 16) % 1024 == hu && (p / 16384) % 1024 == vu) by (nonlinear_arith)
        requires
            p == op + 16 * hu + 16384 * vu,
            0 <= op < 16,
            0 <= hu < 1024,
            0 <= vu < 1024,
    ;
}

/// Decodes a 3-byte animation command.
pub fn decode_ragr_command(b0: u8, b1: u8, b2: u8) -> (r: RagrCommand)
    ensures
        r == ragr_command_of(b0, b1, b2),
{
    let raw: u32 = (b0 as u32) + (b1 as u32) * 256 + (b2 as u32) * 65536;
    RagrCommand { raw, opcode: (raw % 16) as u8 }
}

} // verus!

verus! {

/// Abstract content of an animation group.
pub struct RagrAnimGroupView {
    pub group_index: u16,
    pub anim_id: u16,
    pub flag: u8,
    pub frame_count: u16,
    pub commands: Seq<RagrCommand>,
}

impl View for RagrAnimGroup {
    type V = RagrAnimGroupView;

    open spec fn view(&self) -> RagrAnimGroupView {
        RagrAnimGroupView {
            group_index: self.group_index,
            anim_id: self.anim_id,
            flag: self.flag,
            frame_count: self.frame_count,
            commands: self.commands@,
        }
    }
}

/// Views of a sequence of groups.
pub open spec fn group_views(v: Seq<RagrAnimGroup>) -> Seq<RagrAnimGroupView> {
    v.map_values(|g: RagrAnimGroup| g@)
}

/// Animation groups of an actor, read from `c` on: each entry has a 16-bit
/// size (at least 8; 0 ends the list), group index, animation id, flag and
/// frame count, then one 3-byte command per frame. Reading stops at the
/// first entry that does not fit.
pub open spec fn ragr_groups_from(d: Seq<u8>, c: int) -> Seq<RagrAnimGroupView>
    decreases d.len() - c,
{
    if c < 0 || c + 2 > d.len() {
        Seq::empty()
    } else {
        let es = spec_u16_le(d, c);
        let fc = spec_u16_le(d, c + 8);
        let cs = c + 10;
        if es == 0 || c + 2 + es > d.len() || es < 8 || cs + 3 * fc > d.len() {
            Seq::empty()
        } else {
            let g = RagrAnimGroupView {
                group_index: spec_u16_le(d, c + 2) as u16,
                anim_id: spec_u16_le(d, c + 4) as u16,
                flag: d[c + 6],
                frame_count: fc as u16,
                commands: Seq::new(
                    fc as nat,
                    |i: int| ragr_command_of(d[cs + 3 * i], d[cs + 3 * i + 1], d[cs + 3 * i + 2]),
                ),
            };
            seq![g] + ragr_groups_from(d, c + 2 + es)
        }
    }
}

/// Reads the animation groups of an actor starting at `ragr_offset`.
pub fn parse_ragr_actor_groups(ragr_data: &[u8], ragr_offset: usize) -> (r: Vec<RagrAnimGroup>)
    ensures
        group_views(r@) == ragr_groups_from(ragr_data@, ragr_offset as int),
{
    let n: usize = ragr_data.len();
    let mut groups: Vec<RagrAnimGroup> = Vec::new();
    let mut cursor: usize = ragr_offset;
    assert(group_views(groups@) =~= Seq::<RagrAnimGroupView>::empty());
    loop
        invariant
            n == ragr_data@.len(),
            ragr_groups_from(ragr_data@, ragr_offset as int) == group_views(groups@) + ragr_groups_from(
                ragr_data@,
                cursor as int,
            ),
        decreases n - cursor,
    {
        if cursor > n || n - cursor < 2 {
            assert(group_views(groups@) + Seq::<RagrAnimGroupView>::empty() =~= group_views(groups@));
            return groups;
        }
        let entry_size = read_u16_le(ragr_data, cursor) as usize;
        if entry_size == 0 || entry_size > n - cursor - 2 || entry_size < 8 {
            assert(group_views(groups@) + Seq::<RagrAnimGroupView>::empty() =~= group_views(groups@));
            return groups;
        }
        let group_index = read_u16_le(ragr_data, cursor + 2);
        let anim_id = read_u16_le(ragr_data, cursor + 4);
        let flag = ragr_data[cursor + 6];
        let frame_count = read_u16_le(ragr_data, cursor + 8);
        let cmd_start: usize = cursor + 10;
        if (frame_count as usize) * 3 > n - cmd_start {
            assert(group_views(groups@) + Seq::<RagrAnimGroupView>::empty() =~= group_views(groups@));
            return groups;
        }
        let mut commands: Vec<RagrCommand> = Vec::new();
        let mut i: usize = 0;
        while i < frame_count as usize
            invariant
                n == ragr_data@.len(),
                cmd_start + 3 * frame_count <= n,
                i <= frame_count,
                commands@ =~= Seq::new(
                    i as nat,
                    |j: int| ragr_command_of(
                        ragr_data@[cmd_start + 3 * j],
                        ragr_data@[cmd_start + 3 * j + 1],
                        ragr_data@[cmd_start + 3 * j + 2],
                    ),
                ),
            decreases frame_count - i,
        {
            let off: usize = cmd_start + i * 3;
            commands.push(decode_ragr_command(ragr_data[off], ragr_data[off + 1], ragr_data[off + 2]));
            i += 1;
        }
        let group = RagrAnimGroup { group_index, anim_id, flag, frame_count, commands };
        let ghost before = groups@;
        groups.push(group);
        proof {
            assert(group_views(groups@) =~= group_views(before).push(group@));
            assert(group_views(before) + (seq![group@] + ragr_groups_from(ragr_data@, cursor + 2 + entry_size))
                =~= group_views(groups@) + ragr_groups_from(ragr_data@, cursor + 2 + entry_size));
        }
        cursor = cursor + 2 + entry_size;
    }
}

} // verus!

verus! {

/// Script name of the actor record at `c`: 9 bytes at offset 4 without zero padding.
pub open spec fn rahd_item_name(d: Seq<u8>, c: int) -> Seq<char> {
    utf8_lossy(trim_nul(d.subrange(c + 4, c + 13)))
}

/// Animation offset of the actor record at `c`: the signed field at 0x31,
/// negative read as 0.
pub open spec fn rahd_item_ragr(d: Seq<u8>, c: int) -> usize {
    let v = spec_i32_of(spec_u32_le(d, c + 0x31));
    if v < 0 { 0 } else { v as usize }
}

/// Index built from up to `k` actor records from `c` on, each named actor
/// mapping to its animation offset (a later record overrides an earlier one).
pub open spec fn rahd_index_from(d: Seq<u8>, c: int, k: nat, m: Map<Seq<char>, usize>) -> Map<Seq<char>, usize>
    decreases k,
{
    if k == 0 || c + RAHD_ITEM_SIZE > d.len() {
        m
    } else {
        let name = rahd_item_name(d, c);
        rahd_index_from(
            d,
            c + RAHD_ITEM_SIZE,
            (k - 1) as nat,
            if name.len() > 0 { m.insert(name, rahd_item_ragr(d, c)) } else { m },
        )
    }
}

/// Actor name to animation offset, from the actor records of a `RAHD`
/// payload (a record count, then 165-byte records from offset 8).
pub open spec fn rahd_ragr_index(d: Seq<u8>) -> Map<Seq<char>, usize> {
    if d.len() < 8 {
        Map::empty()
    } else {
        rahd_index_from(d, 8, spec_u32_le(d, 0) as nat, Map::empty())
    }
}

/// Maps each named actor of a `RAHD` payload to its animation offset.
pub fn parse_rahd_ragr_index(rahd_data: &[u8]) -> (r: Vec<(String, usize)>)
    ensures
        crate::assoc::keys_unique(r@),
        crate::assoc::assoc_map(r@) == rahd_ragr_index(rahd_data@),
{
    let n: usize = rahd_data.len();
    let mut out: Vec<(String, usize)> = Vec::new();
    proof {
        assert(crate::assoc::assoc_map(out@) =~= Map::<Seq<char>, usize>::empty());
    }
    if n < 8 {
        return out;
    }
    let count: u32 = read_u32_le(rahd_data, 0);
    let mut cursor: usize = 8;
    let mut k: u32 = 0;
    while k < count
        invariant
            n == rahd_data@.len(),
            8 <= cursor,
            k <= count,
            crate::assoc::keys_unique(out@),
            rahd_ragr_index(rahd_data@) == rahd_index_from(
                rahd_data@,
                cursor as int,
                (count - k) as nat,
                crate::assoc::assoc_map(out@),
            ),
        decreases count - k,
    {
        if cursor > n || n - cursor < RAHD_ITEM_SIZE {
            return out;
        }
        let name = nul_trimmed_string(vstd::slice::slice_subrange(rahd_data, cursor + 4, cursor + 13));
        let v = read_i32_le(rahd_data, cursor + 0x31);
        let ragr_offset: usize = if v < 0 { 0 } else { v as usize };
        if !name.as_str().is_empty() {
            crate::assoc::assoc_insert(&mut out, name, ragr_offset);
        }
        cursor = cursor + RAHD_ITEM_SIZE;
        k += 1;
    }
    out
}

} // verus!

verus! {

/// What the metadata listing gives for one named actor.
#[derive(Debug, Clone)]
pub struct ActorMetadata {
    /// Record number in the actor section.
    pub index: usize,
    pub script_name: String,
    pub animation_groups: Vec<RagrAnimGroup>,
    pub raex: Option<RaexRecord>,
    /// Non-zero attributes, in attribute order, with their names.
    pub attributes: Vec<(String, u8)>,
    pub raan_entries: Vec<RaanEntry>,
    pub rahk_hooks: Vec<u32>,
    pub ranm_name: Option<String>,
    pub mpsz_bounds_0: Option<i32>,
    pub mpsz_bounds_1: Option<i32>,
}

/// A section kept as raw bytes, with its name.
#[derive(Debug, Clone)]
pub struct RawSection {
    pub name: String,
    pub data: Vec<u8>,
}

/// The metadata of a scene: its actors and the records of its sections.
#[derive(Debug, Clone)]
pub struct RgmMetadata {
    pub actors: Vec<ActorMetadata>,
    pub mps_placements: Vec<MpsRecord>,
    /// Objects with their index within their section.
    pub mpob_objects: Vec<(usize, MpobRecord)>,
    pub lights: Vec<MpslRecord>,
    pub ropes: Vec<MprpRecord>,
    pub collision_volumes: Vec<RavcRecord>,
    pub flat_sprites: Vec<MpfRecord>,
    pub markers: Vec<MpmRecord>,
    pub walk_node_maps: Vec<WdnmMap>,
    pub ralc_locations: Vec<[i32; 3]>,
    pub rafs_entries: Vec<Vec<u8>>,
    pub mpsz_entries: Vec<MpszEntry>,
    pub raw_sections: Vec<RawSection>,
}

/// A rope record as values.
pub struct RopeView {
    pub id: u32,
    pub unknown0: u8,
    pub pos_x: i32,
    pub pad_x: u8,
    pub pos_y: i32,
    pub pad_y: u8,
    pub pos_z: u32,
    pub angle_y: i32,
    pub rope_type: i32,
    pub swing: i32,
    pub speed: i32,
    pub length: i16,
    pub static_model: Seq<char>,
    pub rope_model: Seq<char>,
    pub unknown1: [i32; 7],
}

/// A rope record as values.
pub open spec fn rope_view(r: MprpRecord) -> RopeView {
    RopeView {
        id: r.id,
        unknown0: r.unknown0,
        pos_x: r.pos_x,
        pad_x: r.pad_x,
        pos_y: r.pos_y,
        pad_y: r.pad_y,
        pos_z: r.pos_z,
        angle_y: r.angle_y,
        rope_type: r.rope_type,
        swing: r.swing,
        speed: r.speed,
        length: r.length,
        static_model: r.static_model@,
        rope_model: r.rope_model@,
        unknown1: r.unknown1,
    }
}

/// The record lists of the metadata, as values.
pub struct MetaLists {
    pub mps: Seq<MpsRecord>,
    pub mpob: Seq<(usize, MpobRecord)>,
    pub lights: Seq<MpslRecord>,
    pub ropes: Seq<RopeView>,
    pub volumes: Seq<RavcRecord>,
    pub sprites: Seq<MpfRecord>,
    pub markers: Seq<MpmRecord>,
    pub walk_maps: Seq<WdnmMapView>,
    pub locations: Seq<Seq<i32>>,
    pub footsteps: Seq<Seq<u8>>,
    pub bounds: Seq<(int, Seq<i32>, Seq<i32>, Seq<i32>, Seq<i32>, u8)>,
    pub raw: Seq<(Seq<char>, Seq<u8>)>,
}

/// No records yet.
pub open spec fn no_lists() -> MetaLists {
    MetaLists {
        mps: Seq::empty(),
        mpob: Seq::empty(),
        lights: Seq::empty(),
        ropes: Seq::empty(),
        volumes: Seq::empty(),
        sprites: Seq::empty(),
        markers: Seq::empty(),
        walk_maps: Seq::empty(),
        locations: Seq::empty(),
        footsteps: Seq::empty(),
        bounds: Seq::empty(),
        raw: Seq::empty(),
    }
}

/// The lists with one more raw section.
pub open spec fn with_raw(l: MetaLists, name: Seq<char>, d: Seq<u8>) -> MetaLists {
    MetaLists { raw: l.raw.push((name, d)), ..l }
}

/// The lists after one more section: each kind of section adds its records
/// to its list; sections kept unparsed are listed raw with their name.
pub open spec fn lists_step(l: MetaLists, s: RgmSection) -> MetaLists {
    match s {
        RgmSection::Mps(_, r) => MetaLists { mps: l.mps + r@, ..l },
        RgmSection::MpobParsed(_, r) => MetaLists {
            mpob: l.mpob + Seq::new(r@.len(), |i: int| (i as usize, r@[i])),
            ..l
        },
        RgmSection::MplParsed(_, r) => MetaLists { lights: l.lights + r@, ..l },
        RgmSection::MprpParsed(_, r) => MetaLists { ropes: l.ropes + r@.map_values(|x: MprpRecord| rope_view(x)), ..l },
        RgmSection::RavcParsed(_, r) => MetaLists { volumes: l.volumes + r@, ..l },
        RgmSection::Wdnm(_, d) => MetaLists { walk_maps: l.walk_maps + wdnm_maps(d@), ..l },
        RgmSection::Rafs(_, d) => MetaLists { footsteps: l.footsteps + rafs_entries(d@), ..l },
        RgmSection::Ralc(_, d) => MetaLists { locations: l.locations + ralc_locations(d@), ..l },
        RgmSection::Mpf(_, d) => MetaLists {
            sprites: l.sprites + Seq::new(counted_records(d@, 24) as nat, |i: int| mpf_at(d@, 4 + 24 * i)),
            ..l
        },
        RgmSection::Mpm(_, d) => MetaLists {
            markers: l.markers + Seq::new(counted_records(d@, 13) as nat, |i: int| mpm_at(d@, 4 + 13 * i)),
            ..l
        },
        RgmSection::Mpsz(_, d) => MetaLists { bounds: l.bounds + mpsz_entries(d@), ..l },
        RgmSection::Flat(_, d) => with_raw(l, "FLAT"@, d@),
        RgmSection::Raex(_, d) => with_raw(l, "RAEX"@, d@),
        RgmSection::Ravc(_, d) => with_raw(l, "RAVC"@, d@),
        RgmSection::Mpob(_, d) => with_raw(l, "MPOB"@, d@),
        RgmSection::Mprp(_, d) => with_raw(l, "MPRP"@, d@),
        RgmSection::Mpl(_, d) => with_raw(l, "MPL "@, d@),
        _ => l,
    }
}

/// The lists of a sequence of sections, in section order.
pub open spec fn meta_lists(ss: Seq<RgmSection>) -> MetaLists
    decreases ss.len(),
{
    if ss.len() == 0 {
        no_lists()
    } else {
        lists_step(meta_lists(ss.drop_last()), ss.last())
    }
}

/// The record lists that `m` holds.
pub open spec fn lists_of(m: RgmMetadata) -> MetaLists {
    MetaLists {
        mps: m.mps_placements@,
        mpob: m.mpob_objects@,
        lights: m.lights@,
        ropes: m.ropes@.map_values(|x: MprpRecord| rope_view(x)),
        volumes: m.collision_volumes@,
        sprites: m.flat_sprites@,
        markers: m.markers@,
        walk_maps: m.walk_node_maps@.map_values(|w: WdnmMap| w@),
        locations: m.ralc_locations@.map_values(|a: [i32; 3]| a@),
        footsteps: m.rafs_entries@.map_values(|v: Vec<u8>| v@),
        bounds: m.mpsz_entries@.map_values(|e: MpszEntry| mpsz_view(e)),
        raw: m.raw_sections@.map_values(|r: RawSection| (r.name@, r.data@)),
    }
}

fn append_copies<T: Copy>(out: &mut Vec<T>, src: &Vec<T>)
    ensures
        final(out)@ == old(out)@ + src@,
{
    let mut i: usize = 0;
    while i < src.len()
        invariant
            i <= src@.len(),
            out@ == old(out)@ + src@.take(i as int),
        decreases src@.len() - i,
    {
        out.push(src[i]);
        assert(out@ =~= old(out)@ + src@.take(i + 1));
        i += 1;
    }
    assert(src@.take(i as int) =~= src@);
}

fn copy_rope(r: &MprpRecord) -> (c: MprpRecord)
    ensures
        rope_view(c) == rope_view(*r),
{
    MprpRecord {
        id: r.id,
        unknown0: r.unknown0,
        pos_x: r.pos_x,
        pad_x: r.pad_x,
        pos_y: r.pos_y,
        pad_y: r.pad_y,
        pos_z: r.pos_z,
        angle_y: r.angle_y,
        rope_type: r.rope_type,
        swing: r.swing,
        speed: r.speed,
        length: r.length,
        static_model: r.static_model.clone(),
        rope_model: r.rope_model.clone(),
        unknown1: r.unknown1,
    }
}

fn push_raw(m: &mut RgmMetadata, name: &str, data: &Vec<u8>)
    ensures
        lists_of(*final(m)) == with_raw(lists_of(*old(m)), name@, data@),
        final(m).actors == old(m).actors,
{
    let raw = RawSection { name: string_from_chars(crate::text::chars_of(name).as_slice()), data: data.clone() };
    assert(raw.data@ == data@);
    m.raw_sections.push(raw);
    assert(lists_of(*m).raw =~= lists_of(*old(m)).raw.push((name@, data@)));
}

fn add_section_records(m: &mut RgmMetadata, s: &RgmSection)
    ensures
        lists_of(*final(m)) == lists_step(lists_of(*old(m)), *s),
        final(m).actors == old(m).actors,
{
    match s {
        RgmSection::Mps(_, r) => {
            append_copies(&mut m.mps_placements, r);
        },
        RgmSection::MpobParsed(_, r) => {
            let ghost before = m.mpob_objects@;
            let mut i: usize = 0;
            while i < r.len()
                invariant
                    i <= r@.len(),
                    m.mpob_objects@ == before + Seq::new(i as nat, |k: int| (k as usize, r@[k])),
                    m.actors == old(m).actors,
                    m.mps_placements == old(m).mps_placements,
                    m.lights == old(m).lights,
                    m.ropes == old(m).ropes,
                    m.collision_volumes == old(m).collision_volumes,
                    m.flat_sprites == old(m).flat_sprites,
                    m.markers == old(m).markers,
                    m.walk_node_maps == old(m).walk_node_maps,
                    m.ralc_locations == old(m).ralc_locations,
                    m.rafs_entries == old(m).rafs_entries,
                    m.mpsz_entries == old(m).mpsz_entries,
                    m.raw_sections == old(m).raw_sections,
                    before == old(m).mpob_objects@,
                decreases r@.len() - i,
            {
                m.mpob_objects.push((i, r[i]));
                assert(m.mpob_objects@ =~= before + Seq::new((i + 1) as nat, |k: int| (k as usize, r@[k])));
                i += 1;
            }
        },
        RgmSection::MplParsed(_, r) => {
            append_copies(&mut m.lights, r);
        },
        RgmSection::MprpParsed(_, r) => {
            let ghost before = m.ropes@;
            let mut i: usize = 0;
            while i < r.len()
                invariant
                    i <= r@.len(),
                    m.ropes@.map_values(|x: MprpRecord| rope_view(x)) == before.map_values(|x: MprpRecord| rope_view(x))
                        + r@.take(i as int).map_values(|x: MprpRecord| rope_view(x)),
                    m.actors == old(m).actors,
                    m.mps_placements == old(m).mps_placements,
                    m.mpob_objects == old(m).mpob_objects,
                    m.lights == old(m).lights,
                    m.collision_volumes == old(m).collision_volumes,
                    m.flat_sprites == old(m).flat_sprites,
                    m.markers == old(m).markers,
                    m.walk_node_maps == old(m).walk_node_maps,
                    m.ralc_locations == old(m).ralc_locations,
                    m.rafs_entries == old(m).rafs_entries,
                    m.mpsz_entries == old(m).mpsz_entries,
                    m.raw_sections == old(m).raw_sections,
                    before == old(m).ropes@,
                decreases r@.len() - i,
            {
                let ghost prev = m.ropes@;
                let c = copy_rope(&r[i]);
                m.ropes.push(c);
                assert(m.ropes@.map_values(|x: MprpRecord| rope_view(x)) =~= prev.map_values(|x: MprpRecord| rope_view(x)).push(
                    rope_view(r@[i as int]),
                ));
                assert(r@.take(i + 1).map_values(|x: MprpRecord| rope_view(x)) =~= r@.take(i as int).map_values(
                    |x: MprpRecord| rope_view(x),
                ).push(rope_view(r@[i as int])));
                i += 1;
            }
            assert(r@.take(i as int) =~= r@);
        },
        RgmSection::RavcParsed(_, r) => {
            append_copies(&mut m.collision_volumes, r);
        },
        RgmSection::Wdnm(_, d) => {
            let ghost before = m.walk_node_maps@;
            let mut maps = parse_wdnm_maps(d.as_slice());
            let ghost added = maps@;
            m.walk_node_maps.append(&mut maps);
            assert(m.walk_node_maps@.map_values(|w: WdnmMap| w@) =~= before.map_values(|w: WdnmMap| w@) + added.map_values(
                |w: WdnmMap| w@,
            ));
        },
        RgmSection::Rafs(_, d) => {
            let ghost before = m.rafs_entries@;
            let mut es = parse_rafs_entries(d.as_slice());
            let ghost added = es@;
            m.rafs_entries.append(&mut es);
            assert(m.rafs_entries@.map_values(|v: Vec<u8>| v@) =~= before.map_values(|v: Vec<u8>| v@) + added.map_values(
                |v: Vec<u8>| v@,
            ));
        },
        RgmSection::Ralc(_, d) => {
            let ghost before = m.ralc_locations@;
            let mut es = parse_ralc_locations(d.as_slice());
            let ghost added = es@;
            m.ralc_locations.append(&mut es);
            assert(m.ralc_locations@.map_values(|a: [i32; 3]| a@) =~= before.map_values(|a: [i32; 3]| a@) + added.map_values(
                |a: [i32; 3]| a@,
            ));
        },
        RgmSection::Mpf(_, d) => {
            let mut es = parse_mpf_records(d.as_slice());
            m.flat_sprites.append(&mut es);
        },
        RgmSection::Mpm(_, d) => {
            let mut es = parse_mpm_records(d.as_slice());
            m.markers.append(&mut es);
        },
        RgmSection::Mpsz(_, d) => {
            let ghost before = m.mpsz_entries@;
            let mut es = parse_mpsz_entries(d.as_slice());
            let ghost added = es@;
            m.mpsz_entries.append(&mut es);
            assert(m.mpsz_entries@.map_values(|e: MpszEntry| mpsz_view(e)) =~= before.map_values(
                |e: MpszEntry| mpsz_view(e),
            ) + added.map_values(|e: MpszEntry| mpsz_view(e)));
        },
        RgmSection::Flat(_, d) => push_raw(m, "FLAT", d),
        RgmSection::Raex(_, d) => push_raw(m, "RAEX", d),
        RgmSection::Ravc(_, d) => push_raw(m, "RAVC", d),
        RgmSection::Mpob(_, d) => push_raw(m, "MPOB", d),
        RgmSection::Mprp(_, d) => push_raw(m, "MPRP", d),
        RgmSection::Mpl(_, d) => push_raw(m, "MPL ", d),
        _ => {},
    }
}

/// The sections that an actor's metadata reads, as values.
pub struct ActorParts {
    pub rahd: Seq<u8>,
    pub ragr: Seq<u8>,
    pub raat: Seq<u8>,
    pub raan: Seq<u8>,
    pub rahk: Seq<u8>,
    pub ranm: Seq<u8>,
    pub raex: Seq<RaexRecord>,
    pub soup: Option<SoupModel>,
}

/// An actor's metadata as values.
pub struct ActorMetaView {
    pub index: int,
    pub script_name: Seq<char>,
    pub animation_groups: Seq<RagrAnimGroupView>,
    pub raex: Option<RaexRecord>,
    pub attributes: Seq<(Seq<char>, u8)>,
    pub raan_entries: Seq<(u8, u8, Seq<char>)>,
    pub rahk_hooks: Seq<u32>,
    pub ranm_name: Option<Seq<char>>,
    pub mpsz_bounds_0: Option<i32>,
    pub mpsz_bounds_1: Option<i32>,
}

/// `a` as values.
pub open spec fn actor_meta_view(a: ActorMetadata) -> ActorMetaView {
    ActorMetaView {
        index: a.index as int,
        script_name: a.script_name@,
        animation_groups: group_views(a.animation_groups@),
        raex: a.raex,
        attributes: a.attributes@.map_values(|p: (String, u8)| (p.0@, p.1)),
        raan_entries: a.raan_entries@.map_values(|e: RaanEntry| raan_view(e)),
        rahk_hooks: a.rahk_hooks@,
        ranm_name: match a.ranm_name {
            Some(t) => Some(t@),
            None => None,
        },
        mpsz_bounds_0: a.mpsz_bounds_0,
        mpsz_bounds_1: a.mpsz_bounds_1,
    }
}

/// The signed 32-bit field at `off` of the actor record at `c`.
pub open spec fn actor_field(d: Seq<u8>, c: int, off: int) -> i32 {
    spec_i32_of(spec_u32_le(d, c + off)) as i32
}

/// A field read as an offset or count: negative read as 0.
pub open spec fn nonneg(v: i32) -> int {
    if v < 0 {
        0
    } else {
        v as int
    }
}

/// Name of attribute `j`: its defined name when there is a non-empty one,
/// else `attr_<j>`.
pub open spec fn attr_key(soup: Option<SoupModel>, j: int) -> Seq<char> {
    match soup {
        Some(d) => if j < d.attributes.len() && d.attributes[j].len() > 0 {
            d.attributes[j]
        } else {
            "attr_"@ + dec_nat(j as nat)
        },
        None => "attr_"@ + dec_nat(j as nat),
    }
}

/// Non-zero attribute values `j` to 255 of the block at `start`, with names.
pub open spec fn attrs_from(raat: Seq<u8>, start: int, j: int, soup: Option<SoupModel>) -> Seq<(Seq<char>, u8)>
    decreases 256 - j,
{
    if j < 0 || j >= 256 {
        Seq::empty()
    } else {
        let v = raat[start + j];
        (if v != 0 {
            seq![(attr_key(soup, j), v)]
        } else {
            Seq::empty()
        }) + attrs_from(raat, start, j + 1, soup)
    }
}

/// Hook values from `c`: 32-bit values up to the first zero after the
/// first one, as far as whole values fit.
pub open spec fn hooks_from(d: Seq<u8>, start: int, c: int) -> Seq<u32>
    decreases d.len() - c,
{
    if c < 0 || c + 4 > d.len() {
        Seq::empty()
    } else {
        let v = spec_u32_le(d, c) as u32;
        if v == 0 && c > start {
            Seq::empty()
        } else {
            seq![v] + hooks_from(d, start, c + 4)
        }
    }
}

/// The metadata of the actor record number `i` at offset `c`.
pub open spec fn actor_meta(p: ActorParts, i: int, c: int) -> ActorMetaView {
    let d = p.rahd;
    let ragr_off = actor_field(d, c, 0x31);
    let raan_count = nonneg(actor_field(d, c, 0x21));
    let raan_off = nonneg(actor_field(d, c, 0x29));
    let hook_off = nonneg(actor_field(d, c, 0x5D));
    let name_off = nonneg(actor_field(d, c, 0x19));
    let b0 = actor_field(d, c, 0x8D);
    let b1 = actor_field(d, c, 0x91);
    ActorMetaView {
        index: i,
        script_name: rahd_item_name(d, c),
        animation_groups: if ragr_off >= 0 {
            ragr_groups_from(p.ragr, ragr_off as int)
        } else {
            Seq::empty()
        },
        raex: if i < p.raex.len() {
            Some(p.raex[i])
        } else {
            None
        },
        attributes: if 256 * i + 256 <= p.raat.len() {
            attrs_from(p.raat, 256 * i, 0, p.soup)
        } else {
            Seq::empty()
        },
        raan_entries: if raan_count > 0 {
            raan_from(p.raan, raan_off, raan_count as nat)
        } else {
            Seq::empty()
        },
        rahk_hooks: if hook_off > 0 && hook_off < p.rahk.len() {
            hooks_from(p.rahk, hook_off, hook_off)
        } else {
            Seq::empty()
        },
        ranm_name: if name_off < p.ranm.len() && first_zero_from(p.ranm, name_off) < p.ranm.len() && utf8_lossy(
            p.ranm.subrange(name_off, first_zero_from(p.ranm, name_off)),
        ).len() > 0 {
            Some(utf8_lossy(p.ranm.subrange(name_off, first_zero_from(p.ranm, name_off))))
        } else {
            None
        },
        mpsz_bounds_0: if b0 >= 0 {
            Some(b0)
        } else {
            None
        },
        mpsz_bounds_1: if b1 >= 0 {
            Some(b1)
        } else {
            None
        },
    }
}

/// Record numbers and offsets of the named actor records among up to `k`
/// whole records from `c` (record number `i`).
pub open spec fn named_records_from(d: Seq<u8>, c: int, i: int, k: nat) -> Seq<(int, int)>
    decreases k,
{
    if k == 0 || c + RAHD_ITEM_SIZE > d.len() {
        Seq::empty()
    } else {
        let rest = named_records_from(d, c + RAHD_ITEM_SIZE, i + 1, (k - 1) as nat);
        if rahd_item_name(d, c).len() > 0 {
            seq![(i, c)] + rest
        } else {
            rest
        }
    }
}

/// The named actor records of a `RAHD` payload.
pub open spec fn named_records(d: Seq<u8>) -> Seq<(int, int)> {
    if d.len() < 8 {
        Seq::empty()
    } else {
        named_records_from(d, 8, 0, spec_u32_le(d, 0) as nat)
    }
}

/// The metadata of every named actor, in record order.
pub open spec fn actors_meta(p: ActorParts) -> Seq<ActorMetaView> {
    named_records(p.rahd).map_values(|r: (int, int)| actor_meta(p, r.0, r.1))
}

/// Records of the first parsed `RAEX` section, or none.
pub open spec fn first_raex(ss: Seq<RgmSection>) -> Seq<RaexRecord>
    decreases ss.len(),
{
    if ss.len() == 0 {
        Seq::empty()
    } else {
        match ss[0] {
            RgmSection::RaexParsed(_, r) => r@,
            _ => first_raex(ss.drop_first()),
        }
    }
}

fn first_raex_records(rgm: &RgmFile) -> (r: &[RaexRecord])
    ensures
        r@ == first_raex(rgm.sections@),
{
    let mut i: usize = 0;
    assert(rgm.sections@.skip(0) =~= rgm.sections@);
    while i < rgm.sections.len()
        invariant
            i <= rgm.sections@.len(),
            first_raex(rgm.sections@) == first_raex(rgm.sections@.skip(i as int)),
        decreases rgm.sections@.len() - i,
    {
        assert(rgm.sections@.skip(i as int)[0] == rgm.sections@[i as int]);
        assert(rgm.sections@.skip(i as int).drop_first() =~= rgm.sections@.skip(i + 1));
        if let RgmSection::RaexParsed(_, r) = &rgm.sections[i] {
            return r.as_slice();
        }
        i += 1;
    }
    assert(rgm.sections@.skip(i as int) =~= Seq::<RgmSection>::empty());
    &[]
}

struct ActorSources<'a> {
    rahd: &'a [u8],
    ragr: &'a [u8],
    raat: &'a [u8],
    raan: &'a [u8],
    rahk: &'a [u8],
    ranm: &'a [u8],
    raex: &'a [RaexRecord],
    soup_def: Option<&'a SoupDef>,
}

spec fn sources_view(s: ActorSources) -> ActorParts {
    ActorParts {
        rahd: s.rahd@,
        ragr: s.ragr@,
        raat: s.raat@,
        raan: s.raan@,
        rahk: s.rahk@,
        ranm: s.ranm@,
        raex: s.raex@,
        soup: soup_opt(s.soup_def),
    }
}

fn actor_attributes(raat: &[u8], start: usize, soup_def: Option<&SoupDef>) -> (r: Vec<(String, u8)>)
    requires
        start + 256 <= raat@.len(),
    ensures
        r@.map_values(|p: (String, u8)| (p.0@, p.1)) == attrs_from(raat@, start as int, 0, soup_opt(soup_def)),
{
    let mut out: Vec<(String, u8)> = Vec::new();
    let n: usize = raat.len();
    let mut j: usize = 0;
    while j < 256
        invariant
            j <= 256,
            n == raat@.len(),
            start + 256 <= raat@.len(),
            attrs_from(raat@, start as int, 0, soup_opt(soup_def)) == out@.map_values(|p: (String, u8)| (p.0@, p.1))
                + attrs_from(raat@, start as int, j as int, soup_opt(soup_def)),
        decreases 256 - j,
    {
        let v = raat[start + j];
        let ghost before = out@;
        if v != 0 {
            let mut key: Vec<char> = Vec::new();
            let mut named = false;
            if let Some(def) = soup_def {
                if j < def.attributes.len() && def.attributes[j].as_str().is_empty() == false {
                    key = crate::text::chars_of(def.attributes[j].as_str());
                    named = true;
                }
            }
            if !named {
                push_str_chars(&mut key, "attr_");
                push_dec(&mut key, j as u64);
            }
            assert(key@ == attr_key(soup_opt(soup_def), j as int));
            out.push((string_from_chars(key.as_slice()), v));
            assert(out@.map_values(|p: (String, u8)| (p.0@, p.1)) =~= before.map_values(|p: (String, u8)| (p.0@, p.1)).push(
                (attr_key(soup_opt(soup_def), j as int), v),
            ));
        }
        assert(before.map_values(|p: (String, u8)| (p.0@, p.1)) + attrs_from(raat@, start as int, j as int, soup_opt(soup_def))
            =~= out@.map_values(|p: (String, u8)| (p.0@, p.1)) + attrs_from(raat@, start as int, j + 1, soup_opt(soup_def)));
        j += 1;
    }
    assert(out@.map_values(|p: (String, u8)| (p.0@, p.1)) + attrs_from(raat@, start as int, 256, soup_opt(soup_def))
        =~= out@.map_values(|p: (String, u8)| (p.0@, p.1)));
    out
}

fn actor_hooks(rahk: &[u8], start: usize) -> (r: Vec<u32>)
    ensures
        r@ == hooks_from(rahk@, start as int, start as int),
{
    let n: usize = rahk.len();
    let mut out: Vec<u32> = Vec::new();
    let mut c: usize = start;
    loop
        invariant
            n == rahk@.len(),
            start <= c,
            hooks_from(rahk@, start as int, start as int) == out@ + hooks_from(rahk@, start as int, c as int),
        decreases n - c,
    {
        if c > n || n - c < 4 {
            assert(out@ + hooks_from(rahk@, start as int, c as int) =~= out@);
            return out;
        }
        let v = read_u32_le(rahk, c);
        if v == 0 && c > start {
            assert(out@ + hooks_from(rahk@, start as int, c as int) =~= out@);
            return out;
        }
        let ghost before = out@;
        out.push(v);
        assert(before + hooks_from(rahk@, start as int, c as int) =~= out@ + hooks_from(rahk@, start as int, c + 4));
        c = c + 4;
    }
}

fn actor_anim_name(ranm: &[u8], off: usize) -> (r: Option<String>)
    ensures
        match r {
            Some(t) => off < ranm@.len() && first_zero_from(ranm@, off as int) < ranm@.len() && t@ == utf8_lossy(
                ranm@.subrange(off as int, first_zero_from(ranm@, off as int)),
            ) && t@.len() > 0,
            None => !(off < ranm@.len() && first_zero_from(ranm@, off as int) < ranm@.len() && utf8_lossy(
                ranm@.subrange(off as int, first_zero_from(ranm@, off as int)),
            ).len() > 0),
        },
{
    let n: usize = ranm.len();
    if off >= n {
        return None;
    }
    let mut end: usize = off;
    while end < n && ranm[end] != 0
        invariant
            off <= end <= n == ranm@.len(),
            first_zero_from(ranm@, off as int) == first_zero_from(ranm@, end as int),
        decreases n - end,
    {
        end += 1;
    }
    if end >= n {
        return None;
    }
    let t = lossy_string(vstd::slice::slice_subrange(ranm, off, end));
    if t.as_str().is_empty() {
        None
    } else {
        Some(t)
    }
}

fn field_at(d: &[u8], c: usize, off: usize) -> (r: i32)
    requires
        c + RAHD_ITEM_SIZE <= d@.len(),
        off + 4 <= RAHD_ITEM_SIZE,
    ensures
        r == actor_field(d@, c as int, off as int),
{
    let n: usize = d.len();
    assert(c + off + 4 <= n);
    read_i32_le(d, c + off)
}

fn actor_metadata(src: &ActorSources, i: usize, c: usize) -> (r: ActorMetadata)
    requires
        c + RAHD_ITEM_SIZE <= src.rahd@.len(),
    ensures
        actor_meta_view(r) == actor_meta(sources_view(*src), i as int, c as int),
{
    let ghost p = sources_view(*src);
    let d = src.rahd;
    let dn: usize = d.len();
    assert(c + RAHD_ITEM_SIZE <= dn);
    let script_name = nul_trimmed_string(vstd::slice::slice_subrange(d, c + 4, c + 13));
    assert(script_name@ == rahd_item_name(d@, c as int));
    let ragr_off = field_at(d, c, 0x31);
    let animation_groups: Vec<RagrAnimGroup> = if ragr_off >= 0 {
        parse_ragr_actor_groups(src.ragr, ragr_off as usize)
    } else {
        Vec::new()
    };
    let raex: Option<RaexRecord> = if i < src.raex.len() {
        Some(src.raex[i])
    } else {
        None
    };
    let blocks: usize = src.raat.len() / 256;
    let attributes: Vec<(String, u8)> = if i < blocks {
        assert(256 * i + 256 <= src.raat@.len()) by (nonlinear_arith)
            requires
                i < blocks,
                blocks == src.raat@.len() / 256,
        ;
        actor_attributes(src.raat, 256 * i, src.soup_def)
    } else {
        assert(!(256 * i + 256 <= src.raat@.len())) by (nonlinear_arith)
            requires
                i >= blocks,
                blocks == src.raat@.len() / 256,
        ;
        Vec::new()
    };
    let raan_count = field_at(d, c, 0x21);
    let raan_off = field_at(d, c, 0x29);
    let raan_entries: Vec<RaanEntry> = if raan_count > 0 {
        let off: usize = if raan_off < 0 {
            0
        } else {
            raan_off as usize
        };
        parse_raan_entries(src.raan, off, raan_count as usize)
    } else {
        Vec::new()
    };
    let hook_field = field_at(d, c, 0x5D);
    let hook_off: usize = if hook_field < 0 {
        0
    } else {
        hook_field as usize
    };
    let rahk_hooks: Vec<u32> = if hook_off > 0 && hook_off < src.rahk.len() {
        actor_hooks(src.rahk, hook_off)
    } else {
        Vec::new()
    };
    let name_field = field_at(d, c, 0x19);
    let name_off: usize = if name_field < 0 {
        0
    } else {
        name_field as usize
    };
    let ranm_name = actor_anim_name(src.ranm, name_off);
    let b0 = field_at(d, c, 0x8D);
    let b1 = field_at(d, c, 0x91);
    let r = ActorMetadata {
        index: i,
        script_name,
        animation_groups,
        raex,
        attributes,
        raan_entries,
        rahk_hooks,
        ranm_name,
        mpsz_bounds_0: if b0 >= 0 {
            Some(b0)
        } else {
            None
        },
        mpsz_bounds_1: if b1 >= 0 {
            Some(b1)
        } else {
            None
        },
    };
    proof {
        let m = actor_meta(p, i as int, c as int);
        let v = actor_meta_view(r);
        assert(v.index == m.index);
        assert(v.script_name == m.script_name);
        assert(v.animation_groups =~= m.animation_groups);
        assert(v.raex == m.raex);
        assert(v.attributes =~= m.attributes);
        assert(v.raan_entries =~= m.raan_entries);
        assert(v.rahk_hooks =~= m.rahk_hooks);
        assert(v.ranm_name == m.ranm_name);
        assert(v.mpsz_bounds_0 == m.mpsz_bounds_0);
        assert(v.mpsz_bounds_1 == m.mpsz_bounds_1);
    }
    r
}

/// The sections an actor's metadata reads, from a parsed scene: the first
/// section of each kind (an absent one read as empty).
pub open spec fn scene_parts(rgm: RgmFile, soup: Option<SoupModel>) -> ActorParts {
    ActorParts {
        rahd: first_part(rgm.sections@, SectionPart::Actors),
        ragr: first_part(rgm.sections@, SectionPart::Groups),
        raat: first_part(rgm.sections@, SectionPart::Attributes),
        raan: first_part(rgm.sections@, SectionPart::AnimFiles),
        rahk: first_part(rgm.sections@, SectionPart::Hooks),
        ranm: first_part(rgm.sections@, SectionPart::AnimNames),
        raex: first_raex(rgm.sections@),
        soup,
    }
}

fn actors_metadata(src: &ActorSources) -> (r: Vec<ActorMetadata>)
    ensures
        r@.map_values(|a: ActorMetadata| actor_meta_view(a)) == actors_meta(sources_view(*src)),
{
    let ghost p = sources_view(*src);
    let d = src.rahd;
    let n: usize = d.len();
    let mut out: Vec<ActorMetadata> = Vec::new();
    if n < 8 {
        assert(out@.map_values(|a: ActorMetadata| actor_meta_view(a)) =~= actors_meta(p));
        return out;
    }
    let mut left: u32 = read_u32_le(d, 0);
    let mut c: usize = 8;
    let mut i: usize = 0;
    let ghost recs = named_records(d@);
    let ghost mut done: Seq<(int, int)> = Seq::empty();
    while left > 0 && n - c >= RAHD_ITEM_SIZE
        invariant
            n == d@.len(),
            d@ == p.rahd,
            p == sources_view(*src),
            8 <= c <= n,
            i <= c,
            recs == named_records(d@),
            recs == done + named_records_from(d@, c as int, i as int, left as nat),
            out@.map_values(|a: ActorMetadata| actor_meta_view(a)) == done.map_values(
                |r: (int, int)| actor_meta(p, r.0, r.1),
            ),
        decreases left,
    {
        let name = nul_trimmed_string(vstd::slice::slice_subrange(d, c + 4, c + 13));
        assert(name@ == rahd_item_name(d@, c as int));
        let ghost rest = named_records_from(d@, c + RAHD_ITEM_SIZE, i + 1, (left - 1) as nat);
        if !name.as_str().is_empty() {
            let a = actor_metadata(src, i, c);
            let ghost before = out@;
            out.push(a);
            proof {
                assert(out@.map_values(|a: ActorMetadata| actor_meta_view(a)) =~= before.map_values(
                    |a: ActorMetadata| actor_meta_view(a),
                ).push(actor_meta(p, i as int, c as int)));
                assert(done.push((i as int, c as int)).map_values(|r: (int, int)| actor_meta(p, r.0, r.1))
                    =~= done.map_values(|r: (int, int)| actor_meta(p, r.0, r.1)).push(actor_meta(p, i as int, c as int)));
                assert(done + (seq![(i as int, c as int)] + rest) =~= done.push((i as int, c as int)) + rest);
                done = done.push((i as int, c as int));
            }
        }
        left = left - 1;
        c = c + RAHD_ITEM_SIZE;
        i = i + 1;
    }
    proof {
        assert(named_records_from(d@, c as int, i as int, left as nat) =~= Seq::<(int, int)>::empty());
        assert(recs =~= done);
    }
    out
}

/// The metadata of a parsed scene: each named actor with its animation
/// groups, combat record, attributes, animation files, hooks, animation
/// name and bounds indexes; and the records of the placement, object,
/// light, rope, collision, sprite, marker, walk-map, location, footstep
/// and bounds sections, in section order, with the unparsed sections raw.
pub fn rgm_metadata(rgm: &RgmFile, soup_def: Option<&SoupDef>) -> (r: RgmMetadata)
    ensures
        r.actors@.map_values(|a: ActorMetadata| actor_meta_view(a)) == actors_meta(scene_parts(*rgm, soup_opt(soup_def))),
        lists_of(r) == meta_lists(rgm.sections@),
{
    let src = ActorSources {
        rahd: first_part_data(rgm, SectionPart::Actors),
        ragr: first_part_data(rgm, SectionPart::Groups),
        raat: first_part_data(rgm, SectionPart::Attributes),
        raan: first_part_data(rgm, SectionPart::AnimFiles),
        rahk: first_part_data(rgm, SectionPart::Hooks),
        ranm: first_part_data(rgm, SectionPart::AnimNames),
        raex: first_raex_records(rgm),
        soup_def,
    };
    let actors = actors_metadata(&src);
    let mut m = RgmMetadata {
        actors,
        mps_placements: Vec::new(),
        mpob_objects: Vec::new(),
        lights: Vec::new(),
        ropes: Vec::new(),
        collision_volumes: Vec::new(),
        flat_sprites: Vec::new(),
        markers: Vec::new(),
        walk_node_maps: Vec::new(),
        ralc_locations: Vec::new(),
        rafs_entries: Vec::new(),
        mpsz_entries: Vec::new(),
        raw_sections: Vec::new(),
    };
    proof {
        let l = lists_of(m);
        assert(l.mps =~= no_lists().mps);
        assert(l.mpob =~= no_lists().mpob);
        assert(l.lights =~= no_lists().lights);
        assert(l.ropes =~= no_lists().ropes);
        assert(l.volumes =~= no_lists().volumes);
        assert(l.sprites =~= no_lists().sprites);
        assert(l.markers =~= no_lists().markers);
        assert(l.walk_maps =~= no_lists().walk_maps);
        assert(l.locations =~= no_lists().locations);
        assert(l.footsteps =~= no_lists().footsteps);
        assert(l.bounds =~= no_lists().bounds);
        assert(l.raw =~= no_lists().raw);
        assert(rgm.sections@.take(0) =~= Seq::<RgmSection>::empty());
    }
    let ghost actors_view = m.actors@;
    let mut k: usize = 0;
    while k < rgm.sections.len()
        invariant
            k <= rgm.sections@.len(),
            m.actors@ == actors_view,
            lists_of(m) == meta_lists(rgm.sections@.take(k as int)),
        decreases rgm.sections@.len() - k,
    {
        assert(rgm.sections@.take(k + 1).drop_last() =~= rgm.sections@.take(k as int));
        add_section_records(&mut m, &rgm.sections[k]);
        k += 1;
    }
    assert(rgm.sections@.take(k as int) =~= rgm.sections@);
    m
}

} // verus!

verus! {

/// Names of the sixteen animation command opcodes.
pub open spec fn opcode_text(opcode: u8) -> Seq<char> {
    match opcode {
        0 => "ShowFrame"@,
        1 => "EndAnimation"@,
        2 => "GoToPrevious"@,
        3 => "GoToFuture"@,
        4 => "PlaySound"@,
        5 => "BreakPoint"@,
        6 => "SetRotationXYZ"@,
        7 => "SetRotationAxis"@,
        8 => "SetPositionXYZ"@,
        9 => "SetPositionAxis"@,
        10 => "ChangeAnimGroup"@,
        11 => "Rumble"@,
        12 => "DelayCounter"@,
        13 => "ConditionalDelay"@,
        14 => "LoopControl"@,
        _ => "Transition"@,
    }
}

/// Names of the animation group kinds.
pub open spec fn anim_type_text(flag: u8) -> Seq<char> {
    match flag {
        0 => "interruptible"@,
        1 => "must_complete"@,
        2 => "no_panic_revert"@,
        _ => "unknown"@,
    }
}

/// Name of an animation command's opcode.
pub fn opcode_name(opcode: u8) -> (r: &'static str)
    requires
        opcode < 16,
    ensures
        r@ == opcode_text(opcode),
{
    match opcode {
        0 => "ShowFrame",
        1 => "EndAnimation",
        2 => "GoToPrevious",
        3 => "GoToFuture",
        4 => "PlaySound",
        5 => "BreakPoint",
        6 => "SetRotationXYZ",
        7 => "SetRotationAxis",
        8 => "SetPositionXYZ",
        9 => "SetPositionAxis",
        10 => "ChangeAnimGroup",
        11 => "Rumble",
        12 => "DelayCounter",
        13 => "ConditionalDelay",
        14 => "LoopControl",
        _ => "Transition",
    }
}

/// Name of an animation group's kind: how it may be interrupted.
pub fn anim_type_name(flag: u8) -> (r: &'static str)
    ensures
        r@ == anim_type_text(flag),
{
    match flag {
        0 => "interruptible",
        1 => "must_complete",
        2 => "no_panic_revert",
        _ => "unknown",
    }
}

} // verus!
