use rgpre::import::rtx::{parse_rtx_file, RtxEntry};
use rgpre::import::sfx::{parse_sfx_file, AudioType};

fn make_rtx(payloads: &[(&[u8; 4], &[u8])]) -> Vec<u8> {
    let mut buf = Vec::new();
    let mut index_entries: Vec<([u8; 4], u32, u32)> = Vec::new();
    for (tag, payload) in payloads {
        buf.extend_from_slice(*tag);
        let payload_len = u32::try_from(payload.len()).expect("payload length must fit u32");
        buf.extend_from_slice(&payload_len.to_be_bytes());
        let payload_offset = u32::try_from(buf.len()).expect("offset must fit u32");
        buf.extend_from_slice(payload);
        index_entries.push((**tag, payload_offset, payload_len));
    }
    let index_offset = u32::try_from(buf.len()).expect("index offset must fit u32");
    for (tag, off, size) in &index_entries {
        buf.extend_from_slice(tag);
        buf.extend_from_slice(&off.to_le_bytes());
        buf.extend_from_slice(&size.to_le_bytes());
    }
    buf.extend_from_slice(b"RNAV");
    buf.extend_from_slice(&index_offset.to_le_bytes());
    buf.extend_from_slice(&u32::try_from(payloads.len()).expect("payload count must fit u32").to_le_bytes());
    buf
}

fn make_text_payload(text: &str) -> Vec<u8> {
    let mut buf = Vec::new();
    buf.push(0);
    buf.push(0);
    buf.extend_from_slice(&u16::try_from(text.len()).expect("text length must fit u16").to_le_bytes());
    buf.extend_from_slice(&0u16.to_le_bytes());
    buf.extend_from_slice(text.as_bytes());
    buf
}

fn make_audio_payload(label: &str, type_id: u32, sample_rate: u32, pcm_len: u32) -> Vec<u8> {
    let mut buf = Vec::new();
    buf.push(0);
    buf.push(1);
    buf.extend_from_slice(&u16::try_from(label.len()).expect("label length must fit u16").to_le_bytes());
    buf.extend_from_slice(&0u16.to_le_bytes());
    buf.extend_from_slice(label.as_bytes());
    buf.extend_from_slice(&type_id.to_le_bytes());
    buf.extend_from_slice(&type_id.to_le_bytes());
    buf.extend_from_slice(&sample_rate.to_le_bytes());
    buf.push(100);
    buf.push(0);
    buf.extend_from_slice(&0u32.to_le_bytes());
    buf.extend_from_slice(&0xFFFF_FFFFu32.to_le_bytes());
    buf.extend_from_slice(&pcm_len.to_le_bytes());
    buf.push(0);
    let pcm_size = usize::try_from(pcm_len).expect("pcm length must fit usize");
    buf.extend_from_slice(&vec![0x80u8; pcm_size]);
    buf
}

#[test]
fn parse_single_text_entry() {
    let payload = make_text_payload("Hello world");
    let data = make_rtx(&[(b"txt1", &payload)]);
    let file = parse_rtx_file(&data).unwrap();
    assert_eq!(file.entries.len(), 1);
    assert_eq!(file.text_count(), 1);
    assert_eq!(file.audio_count(), 0);
    match &file.entries[0] {
        RtxEntry::Text { tag, text } => {
            assert_eq!(tag, b"txt1");
            assert_eq!(text, "Hello world");
        }
        RtxEntry::Audio { .. } => panic!("expected text entry"),
    }
}

#[test]
fn parse_single_audio_entry() {
    let payload = make_audio_payload("Cyrus speaks", 1, 22050, 100);
    let data = make_rtx(&[(b"aud1", &payload)]);
    let file = parse_rtx_file(&data).unwrap();
    assert_eq!(file.entries.len(), 1);
    assert_eq!(file.audio_count(), 1);
    assert_eq!(file.text_count(), 0);
    match &file.entries[0] {
        RtxEntry::Audio { tag, label, header, pcm_data } => {
            assert_eq!(tag, b"aud1");
            assert_eq!(label, "Cyrus speaks");
            assert_eq!(header.audio_type, AudioType::Mono16);
            assert_eq!(header.sample_rate, 22050);
            assert_eq!(pcm_data.len(), 100);
        }
        RtxEntry::Text { .. } => panic!("expected audio entry"),
    }
}

#[test]
fn parse_mixed_entries() {
    let text = make_text_payload("line one");
    let audio = make_audio_payload("voice", 0, 11025, 50);
    let data = make_rtx(&[(b"tst1", &text), (b"vox1", &audio)]);
    let file = parse_rtx_file(&data).unwrap();
    assert_eq!(file.entries.len(), 2);
    assert_eq!(file.text_count(), 1);
    assert_eq!(file.audio_count(), 1);
}

#[test]
fn rejects_bad_footer_tag() {
    let mut data = make_rtx(&[]);
    let len = data.len();
    data[len - 12..len - 8].copy_from_slice(b"XXXX");
    assert!(parse_rtx_file(&data).is_err());
}

#[test]
fn rtx_rejects_truncated_file() {
    let data = vec![0u8; 8];
    assert!(parse_rtx_file(&data).is_err());
}

#[test]
fn rtx_counts_split_entries_between_text_and_audio() {
    let a = make_text_payload("one");
    let b = make_audio_payload("two", 2, 11025, 4);
    let c = make_text_payload("three");
    let data = make_rtx(&[(b"aaaa", &a), (b"bbbb", &b), (b"cccc", &c)]);
    let file = parse_rtx_file(&data).unwrap();
    assert_eq!(file.text_count() + file.audio_count(), file.entries.len());
    assert_eq!(file.text_count(), 2);
}

fn make_minimal_sfx(effect_count: u32, effects_data: &[u8]) -> Vec<u8> {
    let mut buf = Vec::new();
    let fxhd_payload_size: u32 = 36;
    buf.extend_from_slice(&fxhd_payload_size.to_be_bytes());
    buf.extend_from_slice(&[0u8; 32]);
    buf.extend_from_slice(&effect_count.to_le_bytes());
    let fxdt_size = u32::try_from(effects_data.len()).expect("effects data must fit u32");
    buf.extend_from_slice(&fxdt_size.to_be_bytes());
    buf.extend_from_slice(effects_data);
    buf.extend_from_slice(b"END ");
    buf
}

fn make_effect_bytes(type_id: u32, sample_rate: u32, pcm_len: u32) -> Vec<u8> {
    let mut buf = Vec::new();
    buf.extend_from_slice(&type_id.to_le_bytes());
    buf.extend_from_slice(&0u32.to_le_bytes());
    buf.extend_from_slice(&sample_rate.to_le_bytes());
    buf.push(64);
    buf.push(0);
    buf.extend_from_slice(&0u32.to_le_bytes());
    buf.extend_from_slice(&0xFFFF_FFFFu32.to_le_bytes());
    buf.extend_from_slice(&pcm_len.to_le_bytes());
    buf.push(0);
    let pcm_size = usize::try_from(pcm_len).expect("pcm length must fit usize");
    buf.extend_from_slice(&vec![0x80u8; pcm_size]);
    buf
}

#[test]
fn parse_single_effect() {
    let effect = make_effect_bytes(1, 22050, 100);
    let sfx = make_minimal_sfx(1, &effect);
    let file = parse_sfx_file(&sfx).unwrap();
    assert_eq!(file.effects.len(), 1);
    assert_eq!(file.effects[0].audio_type, AudioType::Mono16);
    assert_eq!(file.effects[0].sample_rate, 22050);
    assert_eq!(file.effects[0].pcm_data.len(), 100);
}

#[test]
fn parse_multiple_effects() {
    let mut data = Vec::new();
    data.extend_from_slice(&make_effect_bytes(0, 11025, 50));
    data.extend_from_slice(&make_effect_bytes(3, 22050, 200));
    let sfx = make_minimal_sfx(2, &data);
    let file = parse_sfx_file(&sfx).unwrap();
    assert_eq!(file.effects.len(), 2);
    assert_eq!(file.effects[0].audio_type, AudioType::Mono8);
    assert_eq!(file.effects[1].audio_type, AudioType::Stereo16);
}

#[test]
fn sfx_rejects_truncated_file() {
    let sfx = vec![0u8; 10];
    assert!(parse_sfx_file(&sfx).is_err());
}

#[test]
fn sfx_rejects_unknown_audio_type() {
    let effect = make_effect_bytes(9, 22050, 4);
    let sfx = make_minimal_sfx(1, &effect);
    assert!(parse_sfx_file(&sfx).is_err());
}

#[test]
fn audio_type_layouts() {
    assert_eq!(AudioType::from_type_id(0), Some(AudioType::Mono8));
    assert_eq!(AudioType::from_type_id(3), Some(AudioType::Stereo16));
    assert_eq!(AudioType::from_type_id(4), None);
    assert_eq!(AudioType::Stereo16.channels(), 2);
    assert_eq!(AudioType::Mono8.bits_per_sample(), 8);
}
