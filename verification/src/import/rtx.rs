//! Parser for dialogue containers: text lines and voice clips addressed by
//! four-byte tags through an index table located by a trailing footer.
use super::sfx::{i8_of, spec_audio_type, spec_i8_of, AudioType};
use crate::bytes::{copy_range, read_u16_le, read_u32_le, spec_u16_le, spec_u32_le};
use crate::error::{parse_error, Error, Result};
use crate::text::{lossy_string, utf8_lossy};
use vstd::prelude::*;

verus! {

/// Size of the trailing footer (`RNAV`, index offset, index count).
pub const FOOTER_SIZE: usize = 12;

/// Size of one index table entry.
pub const INDEX_ENTRY_SIZE: usize = 12;

/// Size of the audio header embedded in voice entries.
pub const AUDIO_HEADER_SIZE: usize = 27;

/// Size of the payload prefix preceding the entry's string.
pub const PAYLOAD_PREFIX_SIZE: usize = 6;

/// One index table entry: tag and payload location.
#[derive(Debug, Clone)]
pub struct RtxIndexEntry {
    pub tag: [u8; 4],
    pub payload_offset: u32,
    pub payload_size: u32,
}

/// Audio metadata embedded in voice entries (same 27-byte layout as effects).
#[derive(Debug, Clone)]
pub struct RtxAudioHeader {
    pub audio_type: AudioType,
    pub sample_rate: u32,
    pub loop_flag: i8,
    pub loop_offset: u32,
    pub loop_end: u32,
    pub audio_length: u32,
}

/// One container entry: a text line or a labelled voice clip.
#[derive(Debug, Clone)]
pub enum RtxEntry {
    Text { tag: [u8; 4], text: String },
    Audio { tag: [u8; 4], label: String, header: RtxAudioHeader, pcm_data: Vec<u8> },
}

/// Parsed container: declared index count and decoded entries in index order.
#[derive(Debug, Clone)]
pub struct RtxFile {
    pub index_count: u32,
    pub entries: Vec<RtxEntry>,
}

/// The tag of an entry.
pub open spec fn spec_entry_tag(e: RtxEntry) -> [u8; 4] {
    match e {
        RtxEntry::Text { tag, .. } => tag,
        RtxEntry::Audio { tag, .. } => tag,
    }
}

/// `e` is a voice clip.
pub open spec fn spec_is_audio(e: RtxEntry) -> bool {
    e is Audio
}

/// `e` is a text line.
pub open spec fn spec_is_text(e: RtxEntry) -> bool {
    !(e is Audio)
}

impl RtxEntry {
    /// The entry's tag decoded as text.
    pub fn tag_str(&self) -> (s: String)
        ensures
            s@ == utf8_lossy(spec_entry_tag(*self)@),
    {
        let tag = match self {
            RtxEntry::Text { tag, .. } => tag,
            RtxEntry::Audio { tag, .. } => tag,
        };
        lossy_string(tag.as_slice())
    }

    /// Returns `true` for voice clips.
    pub fn is_audio(&self) -> (r: bool)
        ensures
            r == spec_is_audio(*self),
    {
        match self {
            RtxEntry::Audio { .. } => true,
            RtxEntry::Text { .. } => false,
        }
    }
}

/// A predicate and its negation split a sequence into two parts whose lengths
/// add up to the whole.
pub proof fn lemma_filter_split_len<A>(s: Seq<A>, p: spec_fn(A) -> bool, q: spec_fn(A) -> bool)
    requires
        forall|x: A| #[trigger] q(x) == !p(x),
    ensures
        s.filter(p).len() + s.filter(q).len() == s.len(),
    decreases s.len(),
{
    reveal_with_fuel(Seq::<_>::filter, 1);
    if s.len() > 0 {
        lemma_filter_split_len(s.drop_last(), p, q);
    }
}

impl RtxFile {
    /// Number of voice clips.
    pub fn audio_count(&self) -> (r: usize)
        ensures
            r == self.entries@.filter(|e: RtxEntry| spec_is_audio(e)).len(),
    {
        let mut count: usize = 0;
        let mut i: usize = 0;
        while i < self.entries.len()
            invariant
                i <= self.entries@.len(),
                count == self.entries@.take(i as int).filter(|e: RtxEntry| spec_is_audio(e)).len(),
                count <= i,
            decreases self.entries@.len() - i,
        {
            proof {
                reveal_with_fuel(Seq::<_>::filter, 1);
                assert(self.entries@.take(i + 1).drop_last() =~= self.entries@.take(i as int));
            }
            if self.entries[i].is_audio() {
                count += 1;
            }
            i += 1;
        }
        assert(self.entries@.take(i as int) =~= self.entries@);
        count
    }

    /// Number of text lines.
    pub fn text_count(&self) -> (r: usize)
        ensures
            r == self.entries@.filter(|e: RtxEntry| spec_is_text(e)).len(),
    {
        let mut count: usize = 0;
        let mut i: usize = 0;
        while i < self.entries.len()
            invariant
                i <= self.entries@.len(),
                count == self.entries@.take(i as int).filter(|e: RtxEntry| spec_is_text(e)).len(),
                count <= i,
            decreases self.entries@.len() - i,
        {
            proof {
                reveal_with_fuel(Seq::<_>::filter, 1);
                assert(self.entries@.take(i + 1).drop_last() =~= self.entries@.take(i as int));
            }
            if !self.entries[i].is_audio() {
                count += 1;
            }
            i += 1;
        }
        assert(self.entries@.take(i as int) =~= self.entries@);
        count
    }
}

/// Every entry of a container is counted exactly once, either as a voice clip
/// or as a text line.
pub proof fn lemma_audio_text_counts_cover_entries(f: RtxFile)
    ensures
        f.entries@.filter(|e: RtxEntry| spec_is_audio(e)).len() + f.entries@.filter(
            |e: RtxEntry| spec_is_text(e),
        ).len() == f.entries@.len(),
{
    lemma_filter_split_len(
        f.entries@,
        |e: RtxEntry| spec_is_audio(e),
        |e: RtxEntry| spec_is_text(e),
    );
}

// ---- specification of the layout ----

/// The footer occupies the last 12 bytes and starts with the ASCII tag `RNAV`.
pub open spec fn rtx_footer_ok(input: Seq<u8>) -> bool {
    &&& input.len() >= 12
    &&& input.subrange(input.len() - 12, input.len() - 8) == seq![0x52u8, 0x4Eu8, 0x41u8, 0x56u8]
}

/// Index table offset declared by the footer.
pub open spec fn rtx_index_offset(input: Seq<u8>) -> int {
    spec_u32_le(input, input.len() - 8)
}

/// Index entry count declared by the footer.
pub open spec fn rtx_index_count(input: Seq<u8>) -> int {
    spec_u32_le(input, input.len() - 4)
}

/// Start of index entry `i`.
pub open spec fn rtx_index_base(input: Seq<u8>, i: int) -> int {
    rtx_index_offset(input) + i * 12
}

/// Payload offset of index entry `i`.
pub open spec fn rtx_payload_offset(input: Seq<u8>, i: int) -> int {
    spec_u32_le(input, rtx_index_base(input, i) + 4)
}

/// Payload size of index entry `i`.
pub open spec fn rtx_payload_size(input: Seq<u8>, i: int) -> int {
    spec_u32_le(input, rtx_index_base(input, i) + 8)
}

/// Payload bytes of index entry `i`.
pub open spec fn rtx_payload(input: Seq<u8>, i: int) -> Seq<u8> {
    input.subrange(
        rtx_payload_offset(input, i),
        rtx_payload_offset(input, i) + rtx_payload_size(input, i),
    )
}

/// The index table fits in the file and every payload it locates does too.
pub open spec fn rtx_index_ok(input: Seq<u8>) -> bool {
    &&& rtx_index_offset(input) + rtx_index_count(input) * 12 <= input.len()
    &&& forall|i: int|
        0 <= i < rtx_index_count(input) ==> #[trigger] rtx_payload_offset(input, i)
            + rtx_payload_size(input, i) <= input.len()
}

/// End of the string in a payload.
pub open spec fn payload_string_end(p: Seq<u8>) -> int {
    6 + spec_u16_le(p, 2)
}

/// Audio byte count declared by the audio header of a voice payload.
pub open spec fn payload_audio_len(p: Seq<u8>) -> int {
    spec_u32_le(p, payload_string_end(p) + 22)
}

/// A payload decodes to an entry.
pub open spec fn rtx_payload_ok(p: Seq<u8>) -> bool {
    &&& p.len() >= 6
    &&& payload_string_end(p) <= p.len()
    &&& (p[1] == 0 || (p[1] == 1 && payload_string_end(p) + 27 <= p.len() && spec_audio_type(
        spec_u32_le(p, payload_string_end(p)) as u32,
    ) is Some && payload_string_end(p) + 27 + payload_audio_len(p) <= p.len()))
}

/// `h` is the audio header stored at `p[s..]`.
pub open spec fn audio_header_at(h: RtxAudioHeader, p: Seq<u8>, s: int) -> bool {
    &&& Some(h.audio_type) == spec_audio_type(spec_u32_le(p, s) as u32)
    &&& h.sample_rate == spec_u32_le(p, s + 8)
    &&& h.loop_flag == spec_i8_of(p[s + 13])
    &&& h.loop_offset == spec_u32_le(p, s + 14)
    &&& h.loop_end == spec_u32_le(p, s + 18)
    &&& h.audio_length == spec_u32_le(p, s + 22)
}

/// `e` is the entry that payload `p` with tag `tag` decodes to.
pub open spec fn rtx_entry_from(e: RtxEntry, tag: Seq<u8>, p: Seq<u8>) -> bool {
    let s = payload_string_end(p);
    match e {
        RtxEntry::Text { tag: t, text } => p[1] == 0 && t@ == tag && text@ == utf8_lossy(
            p.subrange(6, s),
        ),
        RtxEntry::Audio { tag: t, label, header, pcm_data } => {
            &&& p[1] == 1
            &&& t@ == tag
            &&& label@ == utf8_lossy(p.subrange(6, s))
            &&& audio_header_at(header, p, s)
            &&& pcm_data@ == p.subrange(s + 27, s + 27 + payload_audio_len(p))
        },
    }
}

/// The whole container decodes.
pub open spec fn rtx_file_ok(input: Seq<u8>) -> bool {
    &&& rtx_footer_ok(input)
    &&& rtx_index_ok(input)
    &&& forall|i: int| 0 <= i < rtx_index_count(input) ==> rtx_payload_ok(#[trigger] rtx_payload(input, i))
}

// ---- parsing ----

fn parse_footer(input: &[u8]) -> (r: Result<(u32, u32)>)
    ensures
        r is Err ==> r->Err_0 is Parse,
        r is Ok <==> rtx_footer_ok(input@),
        r matches Ok((off, count)) ==> off == rtx_index_offset(input@) && count
            == rtx_index_count(input@),
{
    if input.len() < FOOTER_SIZE {
        return Err(parse_error("RTX file too small for footer"));
    }
    let footer_start = input.len() - FOOTER_SIZE;
    let ok = input[footer_start] == 0x52 && input[footer_start + 1] == 0x4E && input[footer_start
        + 2] == 0x41 && input[footer_start + 3] == 0x56;
    assert(ok == (input@.subrange(input@.len() - 12, input@.len() - 8) =~= seq![0x52u8, 0x4Eu8, 0x41u8, 0x56u8]));
    if !ok {
        return Err(parse_error("RTX footer tag mismatch: expected RNAV"));
    }
    let index_offset = read_u32_le(input, footer_start + 4);
    let index_count = read_u32_le(input, footer_start + 8);
    Ok((index_offset, index_count))
}

fn parse_index_table(input: &[u8], index_offset: u32, index_count: u32) -> (r: Result<Vec<RtxIndexEntry>>)
    requires
        rtx_footer_ok(input@),
        index_offset == rtx_index_offset(input@),
        index_count == rtx_index_count(input@),
    ensures
        r is Ok <==> rtx_index_ok(input@),
        r is Err ==> r->Err_0 is Parse,
        r matches Ok(v) ==> v@.len() == index_count && forall|i: int|
            0 <= i < index_count ==> {
                &&& (#[trigger] v@[i]).tag@ == input@.subrange(
                    rtx_index_base(input@, i),
                    rtx_index_base(input@, i) + 4,
                )
                &&& v@[i].payload_offset == rtx_payload_offset(input@, i)
                &&& v@[i].payload_size == rtx_payload_size(input@, i)
            },
{
    let required: u64 = index_offset as u64 + (index_count as u64) * 12;
    if required > input.len() as u64 {
        return Err(parse_error("RTX index table extends beyond file"));
    }
    let n = input.len();
    let offset = index_offset as usize;
    let count = index_count as usize;
    let mut entries: Vec<RtxIndexEntry> = Vec::with_capacity(count);
    let mut i: usize = 0;
    while i < count
        invariant
            i <= count == index_count == rtx_index_count(input@),
            offset == index_offset == rtx_index_offset(input@),
            offset + count * 12 <= input@.len(),
            n == input@.len(),
            entries@.len() == i,
            forall|k: int|
                0 <= k < i ==> {
                    &&& (#[trigger] entries@[k]).tag@ == input@.subrange(
                        rtx_index_base(input@, k),
                        rtx_index_base(input@, k) + 4,
                    )
                    &&& entries@[k].payload_offset == rtx_payload_offset(input@, k)
                    &&& entries@[k].payload_size == rtx_payload_size(input@, k)
                    &&& rtx_payload_offset(input@, k) + rtx_payload_size(input@, k) <= input@.len()
                },
        decreases count - i,
    {
        assert(offset + i * 12 + 12 <= offset + count * 12) by (nonlinear_arith)
            requires i < count;
        let base = offset + i * INDEX_ENTRY_SIZE;
        let tag: [u8; 4] = [input[base], input[base + 1], input[base + 2], input[base + 3]];
        assert(tag@ =~= input@.subrange(base as int, base + 4));
        let payload_offset = read_u32_le(input, base + 4);
        let payload_size = read_u32_le(input, base + 8);
        if payload_offset as u64 + payload_size as u64 > input.len() as u64 {
            assert(rtx_payload_offset(input@, i as int) + rtx_payload_size(input@, i as int) > input@.len());
            return Err(parse_error("RTX index payload extends beyond file"));
        }
        entries.push(RtxIndexEntry { tag, payload_offset, payload_size });
        i += 1;
    }
    assert forall|k: int| 0 <= k < rtx_index_count(input@) implies #[trigger] rtx_payload_offset(input@, k)
        + rtx_payload_size(input@, k) <= input@.len() by {
        assert(entries@[k].payload_offset == rtx_payload_offset(input@, k));
    }
    Ok(entries)
}

fn parse_audio_header(data: &[u8]) -> (r: Result<RtxAudioHeader>)
    ensures
        r is Err ==> r->Err_0 is Parse,
        r is Ok <==> data@.len() >= 27 && spec_audio_type(spec_u32_le(data@, 0) as u32) is Some,
        r matches Ok(h) ==> audio_header_at(h, data@, 0),
{
    if data.len() < AUDIO_HEADER_SIZE {
        return Err(parse_error("RTX audio header too small"));
    }
    let type_id = read_u32_le(data, 0);
    let sample_rate = read_u32_le(data, 8);
    let loop_flag = i8_of(data[13]);
    let loop_offset = read_u32_le(data, 14);
    let loop_end = read_u32_le(data, 18);
    let audio_length = read_u32_le(data, 22);
    match AudioType::from_type_id(type_id) {
        Some(audio_type) => Ok(
            RtxAudioHeader { audio_type, sample_rate, loop_flag, loop_offset, loop_end, audio_length },
        ),
        None => Err(parse_error("RTX audio header has unknown type id")),
    }
}

fn parse_payload(tag: [u8; 4], payload: &[u8]) -> (r: Result<RtxEntry>)
    ensures
        r is Err ==> r->Err_0 is Parse,
        r is Ok <==> rtx_payload_ok(payload@),
        r matches Ok(e) ==> rtx_entry_from(e, tag@, payload@),
{
    if payload.len() < PAYLOAD_PREFIX_SIZE {
        return Err(parse_error("RTX entry payload too small"));
    }
    let subtype = payload[1];
    let string_len = read_u16_le(payload, 2) as usize;
    let string_start = PAYLOAD_PREFIX_SIZE;
    let string_end = string_start + string_len;
    if string_end > payload.len() {
        return Err(parse_error("RTX entry string extends beyond payload"));
    }
    let text = lossy_string(vstd::slice::slice_subrange(payload, string_start, string_end));
    if subtype == 0 {
        Ok(RtxEntry::Text { tag, text })
    } else if subtype == 1 {
        let audio_start = string_end;
        if audio_start + AUDIO_HEADER_SIZE > payload.len() {
            return Err(parse_error("RTX entry too small for audio header"));
        }
        let rest = vstd::slice::slice_subrange(payload, audio_start, payload.len());
        let header = parse_audio_header(rest)?;
        proof {
            assert(rest@ =~= payload@.subrange(audio_start as int, payload@.len() as int));
            assert forall|k: int| 0 <= k < 27 implies rest@[k] == payload@[audio_start + k] by {}
        }
        let pcm_start = audio_start + AUDIO_HEADER_SIZE;
        let pcm_len = header.audio_length as usize;
        if pcm_len > payload.len() - pcm_start {
            return Err(parse_error("RTX entry PCM data extends beyond payload"));
        }
        let pcm_data = copy_range(payload, pcm_start, pcm_start + pcm_len);
        Ok(RtxEntry::Audio { tag, label: text, header, pcm_data })
    } else {
        Err(parse_error("RTX entry has unknown subtype"))
    }
}

/// Parses a dialogue container from raw bytes.
///
/// Fails exactly when the footer is missing or mistagged, the index table or
/// one of its payloads extends past the end of the input, or a payload does
/// not decode (truncated, unknown subtype, unknown audio type).
pub fn parse_rtx_file(input: &[u8]) -> (r: Result<RtxFile>)
    ensures
        r is Err ==> r->Err_0 is Parse,
        r is Ok <==> rtx_file_ok(input@),
        r matches Ok(f) ==> {
            &&& f.index_count == rtx_index_count(input@)
            &&& f.entries@.len() == rtx_index_count(input@)
            &&& forall|i: int|
                0 <= i < f.entries@.len() ==> rtx_entry_from(
                    #[trigger] f.entries@[i],
                    input@.subrange(rtx_index_base(input@, i), rtx_index_base(input@, i) + 4),
                    rtx_payload(input@, i),
                )
        },
{
    let (index_offset, index_count) = parse_footer(input)?;
    let index = parse_index_table(input, index_offset, index_count)?;
    let mut entries: Vec<RtxEntry> = Vec::with_capacity(index.len());
    let n = input.len();
    let mut i: usize = 0;
    while i < index.len()
        invariant
            n == input@.len(),
            rtx_footer_ok(input@),
            rtx_index_ok(input@),
            index@.len() == index_count == rtx_index_count(input@),
            forall|i: int|
                0 <= i < index_count ==> {
                    &&& (#[trigger] index@[i]).tag@ == input@.subrange(
                        rtx_index_base(input@, i),
                        rtx_index_base(input@, i) + 4,
                    )
                    &&& index@[i].payload_offset == rtx_payload_offset(input@, i)
                    &&& index@[i].payload_size == rtx_payload_size(input@, i)
                },
            i <= index@.len(),
            entries@.len() == i,
            forall|k: int| 0 <= k < i ==> rtx_payload_ok(#[trigger] rtx_payload(input@, k)),
            forall|k: int|
                0 <= k < i ==> rtx_entry_from(
                    #[trigger] entries@[k],
                    input@.subrange(rtx_index_base(input@, k), rtx_index_base(input@, k) + 4),
                    rtx_payload(input@, k),
                ),
        decreases index@.len() - i,
    {
        let start = index[i].payload_offset as usize;
        let size = index[i].payload_size as usize;
        assert(rtx_payload_offset(input@, i as int) + rtx_payload_size(input@, i as int) <= input@.len());
        let payload = vstd::slice::slice_subrange(input, start, start + size);
        let entry = match parse_payload(index[i].tag, payload) {
            Ok(e) => e,
            Err(e) => {
                assert(payload@ == rtx_payload(input@, i as int));
                assert(!rtx_payload_ok(rtx_payload(input@, i as int)));
                return Err(e);
            },
        };
        entries.push(entry);
        i += 1;
    }
    Ok(RtxFile { index_count, entries })
}

} // verus!
