//! Parser for sound effect banks.
//!
//! Layout: a header section (big-endian section size, 32-byte description,
//! little-endian effect count) followed by a data section whose effects each
//! carry a 27-byte audio header and raw PCM bytes.
use crate::bytes::{copy_range, read_u32_le, spec_u32_le};
use crate::error::{parse_error, Error, Result};
use crate::text::{nul_trimmed_string, trim_nul, utf8_lossy};
use vstd::prelude::*;

verus! {

/// Encoded audio channel/bit-depth layout of an effect.
#[derive(Debug, Clone, Copy, PartialEq, Eq, Structural)]
pub enum AudioType {
    Mono8,
    Mono16,
    Stereo8,
    Stereo16,
}

/// The layout denoted by a type id, if the id is one of the four known ones.
pub open spec fn spec_audio_type(id: u32) -> Option<AudioType> {
    if id == 0 {
        Some(AudioType::Mono8)
    } else if id == 1 {
        Some(AudioType::Mono16)
    } else if id == 2 {
        Some(AudioType::Stereo8)
    } else if id == 3 {
        Some(AudioType::Stereo16)
    } else {
        None
    }
}

impl AudioType {
    /// Maps a stored type id to its layout.
    pub fn from_type_id(id: u32) -> (r: Option<Self>)
        ensures
            r == spec_audio_type(id),
    {
        match id {
            0 => Some(AudioType::Mono8),
            1 => Some(AudioType::Mono16),
            2 => Some(AudioType::Stereo8),
            3 => Some(AudioType::Stereo16),
            _ => None,
        }
    }

    /// Returns the number of PCM channels for this audio type.
    pub fn channels(&self) -> (r: u16)
        ensures
            r == (match self {
                AudioType::Mono8 | AudioType::Mono16 => 1u16,
                AudioType::Stereo8 | AudioType::Stereo16 => 2u16,
            }),
    {
        match self {
            AudioType::Mono8 | AudioType::Mono16 => 1,
            AudioType::Stereo8 | AudioType::Stereo16 => 2,
        }
    }

    /// Returns bits per sample for this audio type.
    pub fn bits_per_sample(&self) -> (r: u16)
        ensures
            r == (match self {
                AudioType::Mono8 | AudioType::Stereo8 => 8u16,
                AudioType::Mono16 | AudioType::Stereo16 => 16u16,
            }),
    {
        match self {
            AudioType::Mono8 | AudioType::Stereo8 => 8,
            AudioType::Mono16 | AudioType::Stereo16 => 16,
        }
    }
}

/// Parsed sound effect entry.
#[derive(Debug, Clone)]
pub struct SfxEffect {
    pub audio_type: AudioType,
    pub sample_rate: u32,
    pub loop_flag: i8,
    pub loop_offset: u32,
    pub loop_end: u32,
    pub pcm_data: Vec<u8>,
}

/// Parsed effect bank: description and effect list.
#[derive(Debug, Clone)]
pub struct SfxFile {
    pub description: String,
    pub effects: Vec<SfxEffect>,
}

/// Size of the per-effect audio header.
pub const SFX_EFFECT_HEADER_SIZE: usize = 27;

/// Offset of the first effect header.
pub const SFX_FIRST_EFFECT: usize = 44;

/// PCM byte count of the effect whose header starts at `c`.
pub open spec fn sfx_data_len(input: Seq<u8>, c: int) -> int {
    spec_u32_le(input, c + 22)
}

/// The effect whose header starts at `c` fits in `input` and has a known type.
pub open spec fn sfx_effect_ok(input: Seq<u8>, c: int) -> bool {
    &&& c + 27 <= input.len()
    &&& c + 27 + sfx_data_len(input, c) <= input.len()
    &&& spec_audio_type(spec_u32_le(input, c) as u32) is Some
}

/// Header offsets of `count` consecutive effects starting at `c`, or `None`
/// when one of them is truncated or of unknown type.
pub open spec fn sfx_effect_starts(input: Seq<u8>, c: int, count: nat) -> Option<Seq<int>>
    decreases count,
{
    if count == 0 {
        Some(Seq::empty())
    } else if !sfx_effect_ok(input, c) {
        None
    } else {
        match sfx_effect_starts(input, c + 27 + sfx_data_len(input, c), (count - 1) as nat) {
            Some(rest) => Some(seq![c] + rest),
            None => None,
        }
    }
}

/// Two's-complement value of a byte.
pub open spec fn spec_i8_of(b: u8) -> i8 {
    if b >= 128 { (b - 256) as i8 } else { b as i8 }
}

/// `e` is the effect described by the header at `c`.
pub open spec fn sfx_effect_at(e: SfxEffect, input: Seq<u8>, c: int) -> bool {
    &&& Some(e.audio_type) == spec_audio_type(spec_u32_le(input, c) as u32)
    &&& e.sample_rate == spec_u32_le(input, c + 8)
    &&& e.loop_flag == spec_i8_of(input[c + 13])
    &&& e.loop_offset == spec_u32_le(input, c + 14)
    &&& e.loop_end == spec_u32_le(input, c + 18)
    &&& e.pcm_data@ == input.subrange(c + 27, c + 27 + sfx_data_len(input, c))
}

/// Converts a stored byte to a signed flag value.
pub fn i8_of(b: u8) -> (r: i8)
    ensures
        r == spec_i8_of(b),
{
    if b >= 128 {
        ((b as i16) - 256) as i8
    } else {
        b as i8
    }
}

/// Parses an effect bank from bytes.
///
/// Fails when the input is shorter than 48 bytes, or when one of the declared
/// effects is truncated or of unknown type.
pub fn parse_sfx_file(input: &[u8]) -> (r: Result<SfxFile>)
    ensures
        r is Err ==> r->Err_0 is Parse,
        r is Ok <==> input@.len() >= 48 && sfx_effect_starts(
            input@,
            44,
            spec_u32_le(input@, 36) as nat,
        ) is Some,
        r matches Ok(f) ==> {
            let starts = sfx_effect_starts(input@, 44, spec_u32_le(input@, 36) as nat)->Some_0;
            &&& f.description@ == utf8_lossy(trim_nul(input@.subrange(4, 36)))
            &&& f.effects@.len() == starts.len()
            &&& forall|k: int|
                0 <= k < starts.len() ==> sfx_effect_at(#[trigger] f.effects@[k], input@, starts[k])
        },
{
    if input.len() < 48 {
        return Err(parse_error("SFX file too small for FXHD section"));
    }
    let description = nul_trimmed_string(vstd::slice::slice_subrange(input, 4, 36));
    let effect_count = read_u32_le(input, 36) as usize;
    let ghost total = spec_u32_le(input@, 36) as nat;
    let mut cursor: usize = SFX_FIRST_EFFECT;
    let mut effects: Vec<SfxEffect> = Vec::new();
    let ghost mut starts: Seq<int> = Seq::empty();
    let mut i: usize = 0;
    while i < effect_count
        invariant
            i <= effect_count == total,
            total == spec_u32_le(input@, 36) as nat,
            input@.len() >= 48,
            cursor <= input@.len(),
            effects@.len() == starts.len() == i,
            forall|k: int|
                0 <= k < i ==> sfx_effect_at(#[trigger] effects@[k], input@, starts[k]),
            sfx_effect_starts(input@, 44, total) == match sfx_effect_starts(
                input@,
                cursor as int,
                (total - i) as nat,
            ) {
                Some(rest) => Some(starts + rest),
                None => None::<Seq<int>>,
            },
        decreases effect_count - i,
    {
        if cursor > input.len() - SFX_EFFECT_HEADER_SIZE {
            assert(sfx_effect_starts(input@, cursor as int, (total - i) as nat) is None);
            return Err(parse_error("SFX effect header extends beyond file"));
        }
        let type_id = read_u32_le(input, cursor);
        let sample_rate = read_u32_le(input, cursor + 8);
        let loop_flag = i8_of(input[cursor + 13]);
        let loop_offset = read_u32_le(input, cursor + 14);
        let loop_end = read_u32_le(input, cursor + 18);
        let data_length = read_u32_le(input, cursor + 22) as usize;
        let data_start = cursor + SFX_EFFECT_HEADER_SIZE;
        if data_length > input.len() - data_start {
            assert(sfx_effect_starts(input@, cursor as int, (total - i) as nat) is None);
            return Err(parse_error("SFX effect PCM data extends beyond file"));
        }
        let audio_type = match AudioType::from_type_id(type_id) {
            Some(t) => t,
            None => {
                assert(sfx_effect_starts(input@, cursor as int, (total - i) as nat) is None);
            return Err(parse_error("SFX effect has unknown audio type"));
            },
        };
        let pcm_data = copy_range(input, data_start, data_start + data_length);
        let ghost c = cursor as int;
        effects.push(SfxEffect { audio_type, sample_rate, loop_flag, loop_offset, loop_end, pcm_data });
        proof {
            let rest = sfx_effect_starts(input@, c + 27 + sfx_data_len(input@, c), (total - i - 1) as nat);
            if rest is Some {
                assert(starts + (seq![c] + rest->Some_0) =~= starts.push(c) + rest->Some_0);
            }
            starts = starts.push(c);
        }
        cursor = data_start + data_length;
        i += 1;
    }
    assert(starts + Seq::<int>::empty() =~= starts);
    Ok(SfxFile { description, effects })
}

} // verus!

verus! {

/// Where an effect header puts its fields: the type code is the
/// little-endian 32-bit number at offset 0 (0 mono 8-bit, 1 mono 16-bit,
/// 2 stereo 8-bit, 3 stereo 16-bit), the sample rate the one at 8, the loop
/// start at 14 and the loop end at 18; the sound bytes follow the 27-byte
/// header, as many as the 32-bit number at 22 says.
pub proof fn law_sfx_effect_layout(e: SfxEffect, input: Seq<u8>, c: int)
    requires
        0 <= c,
        sfx_effect_ok(input, c),
        sfx_effect_at(e, input, c),
    ensures
        ({
            let code = input[c] + 256 * input[c + 1] + 65536 * input[c + 2] + 16777216 * input[c + 3];
            &&& code == 0 ==> e.audio_type == AudioType::Mono8
            &&& code == 1 ==> e.audio_type == AudioType::Mono16
            &&& code == 2 ==> e.audio_type == AudioType::Stereo8
            &&& code == 3 ==> e.audio_type == AudioType::Stereo16
        }),
        e.sample_rate == input[c + 8] + 256 * input[c + 9] + 65536 * input[c + 10] + 16777216 * input[c + 11],
        e.loop_offset == input[c + 14] + 256 * input[c + 15] + 65536 * input[c + 16] + 16777216 * input[c + 17],
        e.loop_end == input[c + 18] + 256 * input[c + 19] + 65536 * input[c + 20] + 16777216 * input[c + 21],
        e.pcm_data@.len() == input[c + 22] + 256 * input[c + 23] + 65536 * input[c + 24] + 16777216 * input[c + 25],
        forall|k: int| 0 <= k < e.pcm_data@.len() ==> #[trigger] e.pcm_data@[k] == input[c + 27 + k],
{
}

} // verus!
