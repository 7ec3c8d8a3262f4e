//! Scene files: a sequence of tagged sections describing actors, scripts,
//! animations, placed objects, lights, ropes and walk maps.
pub mod metadata;
pub mod parser;
pub mod placement;
pub mod positioning;
pub mod records;
pub mod scene;
pub mod script;
pub mod shared;

pub use metadata::{parse_ragr_actor_groups, parse_rahd_ragr_index};
use vstd::prelude::*;

verus! {

/// Section header: 4-byte name and big-endian payload length.
#[derive(Debug, Clone, Copy)]
pub struct RgmSectionHeader {
    pub name: [u8; 4],
    pub data_length: u32,
    pub record_count: Option<u32>,
}

/// Static model placement (`MPSO` record).
#[derive(Debug, Clone, Copy)]
pub struct MpsRecord {
    pub id: u32,
    pub model_name: [u8; 12],
    pub pos_x: i32,
    pub pos_y: i32,
    pub pos_z: u32,
    pub rotation_matrix: [i32; 9],
    pub trailing: [u8; 2],
}

/// Scripted object placement (`MPOB` record).
#[derive(Debug, Clone, Copy)]
pub struct MpobRecord {
    pub id: u32,
    pub object_type: u8,
    pub is_active: u8,
    pub script_name: [u8; 9],
    pub model_name: [u8; 9],
    pub is_static: u8,
    pub unknown1: i16,
    pub pos_x: i32,
    pub pad_x: u8,
    pub pos_y: i32,
    pub pad_y: u8,
    pub pos_z: u32,
    pub angle_x: u32,
    pub angle_y: u32,
    pub angle_z: u32,
    pub texture_data_raw: i16,
    pub texture_id: u8,
    pub image_id: u8,
    pub intensity: i16,
    pub radius: i16,
    pub model_id: i16,
    pub world_id: i16,
    pub red: i16,
    pub green: i16,
    pub blue: i16,
}

/// Collision volume (`RAVC` record).
#[derive(Debug, Clone, Copy)]
pub struct RavcRecord {
    pub offset_x: i8,
    pub offset_y: i8,
    pub offset_z: i8,
    pub vertex: u16,
    pub radius: u32,
}

/// Actor equipment and combat ranges (`RAEX` record).
#[derive(Debug, Clone, Copy)]
pub struct RaexRecord {
    pub grip0: i16,
    pub grip1: i16,
    pub scabbard0: i16,
    pub scabbard1: i16,
    pub unknown_08: i16,
    pub texture_id: i16,
    pub v_vertex: i16,
    pub v_size: i16,
    pub taunt_id: i16,
    pub unknown_12: i16,
    pub unknown_14: i16,
    pub unknown_16: i16,
    pub range_min: i16,
    pub range_ideal: i16,
    pub range_max: i16,
}

/// One 24-bit animation command of an `RAGR` group.
#[derive(Debug, Clone, Copy)]
pub struct RagrCommand {
    pub raw: u32,
    pub opcode: u8,
}

/// Animation group of an actor.
#[derive(Debug, Clone)]
pub struct RagrAnimGroup {
    pub group_index: u16,
    pub anim_id: u16,
    pub flag: u8,
    pub frame_count: u16,
    pub commands: Vec<RagrCommand>,
}

/// Light placement (`MPSL` record).
#[derive(Debug, Clone, Copy)]
pub struct MpslRecord {
    pub color_r: u8,
    pub color_g: u8,
    pub color_b: u8,
    pub color_flags: u8,
    pub unknown0: u32,
    pub pos_x: i32,
    pub pos_y: i32,
    pub pos_z: u32,
    pub param0: i16,
    pub param1: i16,
    pub unknown1: [u8; 18],
}

/// Rope placement (`MPRP` record).
#[derive(Debug, Clone)]
pub struct MprpRecord {
    pub id: u32,
    pub unknown0: u8,
    pub pos_x: i32,
    pub pad_x: u8,
    pub pos_y: i32,
    pub pad_y: u8,
    pub pos_z: u32,
    pub angle_y: i32,
    pub rope_type: i32,
    pub swing: i32,
    pub speed: i32,
    pub length: i16,
    pub static_model: String,
    pub rope_model: String,
    pub unknown1: [i32; 7],
}

/// Parsed scene file.
#[derive(Debug, Clone)]
pub struct RgmFile {
    pub sections: Vec<RgmSection>,
}

/// One section, raw or with its records decoded.
#[derive(Debug, Clone)]
pub enum RgmSection {
    Rahd(RgmSectionHeader, Vec<u8>),
    Rafs(RgmSectionHeader, Vec<u8>),
    Rast(RgmSectionHeader, Vec<u8>),
    Rasb(RgmSectionHeader, Vec<u8>),
    Rava(RgmSectionHeader, Vec<u8>),
    Rasc(RgmSectionHeader, Vec<u8>),
    Rahk(RgmSectionHeader, Vec<u8>),
    Ralc(RgmSectionHeader, Vec<u8>),
    Raex(RgmSectionHeader, Vec<u8>),
    RaexParsed(RgmSectionHeader, Vec<RaexRecord>),
    Raat(RgmSectionHeader, Vec<u8>),
    Raan(RgmSectionHeader, Vec<u8>),
    Ragr(RgmSectionHeader, Vec<u8>),
    Ranm(RgmSectionHeader, Vec<u8>),
    Ravc(RgmSectionHeader, Vec<u8>),
    RavcParsed(RgmSectionHeader, Vec<RavcRecord>),
    Mpob(RgmSectionHeader, Vec<u8>),
    MpobParsed(RgmSectionHeader, Vec<MpobRecord>),
    Mprp(RgmSectionHeader, Vec<u8>),
    MprpParsed(RgmSectionHeader, Vec<MprpRecord>),
    Mps(RgmSectionHeader, Vec<MpsRecord>),
    Mpl(RgmSectionHeader, Vec<u8>),
    MplParsed(RgmSectionHeader, Vec<MpslRecord>),
    Mpf(RgmSectionHeader, Vec<u8>),
    Mpm(RgmSectionHeader, Vec<u8>),
    Mpsz(RgmSectionHeader, Vec<u8>),
    Wdnm(RgmSectionHeader, Vec<u8>),
    Flat(RgmSectionHeader, Vec<u8>),
    End(RgmSectionHeader),
}

} // verus!

verus! {

/// Parses a scene file into its sections; reading is lenient and never fails.
pub fn parse_rgm_file(input: &[u8]) -> (r: crate::error::Result<RgmFile>)
    ensures
        r matches Ok(f) && parser::rgm_matches(f, input@),
{
    match parser::parse_rgm_file(input) {
        Ok((_, rgm_file)) => Ok(rgm_file),
        Err(e) => Err(e),
    }
}

/// Kinds of sections whose payload other sections' records point into.
#[derive(Debug, Clone, Copy, PartialEq, Eq)]
pub enum SectionPart {
    /// `RAHD`: actor records.
    Actors,
    /// `RASC`: bytecode.
    Code,
    /// `RAST`: string text.
    Text,
    /// `RASB`: string offsets.
    TextOffsets,
    /// `RAVA`: variable values.
    Variables,
    /// `RAGR`: animation groups.
    Groups,
    /// `RAAT`: attribute values, 256 per actor.
    Attributes,
    /// `RAAN`: animation files.
    AnimFiles,
    /// `RAHK`: hook values.
    Hooks,
    /// `RANM`: animation names.
    AnimNames,
}

/// The payload of `s` when it is a section of kind `part`.
pub open spec fn part_payload(s: RgmSection, part: SectionPart) -> Option<Seq<u8>> {
    match (part, s) {
        (SectionPart::Actors, RgmSection::Rahd(_, d)) => Some(d@),
        (SectionPart::Code, RgmSection::Rasc(_, d)) => Some(d@),
        (SectionPart::Text, RgmSection::Rast(_, d)) => Some(d@),
        (SectionPart::TextOffsets, RgmSection::Rasb(_, d)) => Some(d@),
        (SectionPart::Variables, RgmSection::Rava(_, d)) => Some(d@),
        (SectionPart::Groups, RgmSection::Ragr(_, d)) => Some(d@),
        (SectionPart::Attributes, RgmSection::Raat(_, d)) => Some(d@),
        (SectionPart::AnimFiles, RgmSection::Raan(_, d)) => Some(d@),
        (SectionPart::Hooks, RgmSection::Rahk(_, d)) => Some(d@),
        (SectionPart::AnimNames, RgmSection::Ranm(_, d)) => Some(d@),
        _ => None,
    }
}

/// The payload of the first section of kind `part`, or nothing.
pub open spec fn first_part(ss: Seq<RgmSection>, part: SectionPart) -> Seq<u8>
    decreases ss.len(),
{
    if ss.len() == 0 {
        Seq::empty()
    } else {
        match part_payload(ss[0], part) {
            Some(d) => d,
            None => first_part(ss.drop_first(), part),
        }
    }
}

pub(crate) fn first_part_data(rgm: &RgmFile, part: SectionPart) -> (r: &[u8])
    ensures
        r@ == first_part(rgm.sections@, part),
{
    let mut i: usize = 0;
    assert(rgm.sections@.skip(0) =~= rgm.sections@);
    while i < rgm.sections.len()
        invariant
            i <= rgm.sections@.len(),
            first_part(rgm.sections@, part) == first_part(rgm.sections@.skip(i as int), part),
        decreases rgm.sections@.len() - i,
    {
        assert(rgm.sections@.skip(i as int)[0] == rgm.sections@[i as int]);
        assert(rgm.sections@.skip(i as int).drop_first() =~= rgm.sections@.skip(i + 1));
        let found: Option<&[u8]> = match (part, &rgm.sections[i]) {
            (SectionPart::Actors, RgmSection::Rahd(_, d)) => Some(d.as_slice()),
            (SectionPart::Code, RgmSection::Rasc(_, d)) => Some(d.as_slice()),
            (SectionPart::Text, RgmSection::Rast(_, d)) => Some(d.as_slice()),
            (SectionPart::TextOffsets, RgmSection::Rasb(_, d)) => Some(d.as_slice()),
            (SectionPart::Variables, RgmSection::Rava(_, d)) => Some(d.as_slice()),
            (SectionPart::Groups, RgmSection::Ragr(_, d)) => Some(d.as_slice()),
            (SectionPart::Attributes, RgmSection::Raat(_, d)) => Some(d.as_slice()),
            (SectionPart::AnimFiles, RgmSection::Raan(_, d)) => Some(d.as_slice()),
            (SectionPart::Hooks, RgmSection::Rahk(_, d)) => Some(d.as_slice()),
            (SectionPart::AnimNames, RgmSection::Ranm(_, d)) => Some(d.as_slice()),
            _ => None,
        };
        if let Some(d) = found {
            return d;
        }
        i += 1;
    }
    assert(rgm.sections@.skip(i as int) =~= Seq::<RgmSection>::empty());
    &[]
}

/// Disassembles the actor scripts of a parsed scene, reading each part
/// from the first section of its kind (an absent one read as empty).
pub fn disassemble_rgm_scripts(rgm: &RgmFile, soup_def: Option<&crate::import::soup_def::SoupDef>) -> (r: Vec<
    (String, script::ActorScript),
>)
    ensures
        script::scripts_listed(
            r@,
            first_part(rgm.sections@, SectionPart::Actors),
            first_part(rgm.sections@, SectionPart::Code),
            first_part(rgm.sections@, SectionPart::Text),
            first_part(rgm.sections@, SectionPart::TextOffsets),
            first_part(rgm.sections@, SectionPart::Variables),
            script::soup_opt(soup_def),
        ),
{
    script::disassemble_actor_scripts(
        first_part_data(rgm, SectionPart::Actors),
        first_part_data(rgm, SectionPart::Code),
        first_part_data(rgm, SectionPart::Text),
        first_part_data(rgm, SectionPart::TextOffsets),
        first_part_data(rgm, SectionPart::Variables),
        soup_def,
    )
}

} // verus!
