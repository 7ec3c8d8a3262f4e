use rgpre::import::gxa::{decompress_rle, parse_gxa_file};
use rgpre::import::model3d::parser::parse_face_data;
use rgpre::import::model3d::{ModelVersion, TextureData};
use rgpre::import::palette::Palette;

fn make_v27_face_bytes(u1: u8, texture_data: u16, vertex_count: u8) -> Vec<u8> {
    let mut buf = Vec::new();
    buf.push(vertex_count);
    buf.push(u1);
    buf.extend_from_slice(&texture_data.to_le_bytes());
    buf.extend_from_slice(&0u32.to_le_bytes());
    for _ in 0..vertex_count {
        buf.extend_from_slice(&0u32.to_le_bytes());
        buf.extend_from_slice(&0i16.to_le_bytes());
        buf.extend_from_slice(&0i16.to_le_bytes());
    }
    buf
}

#[test]
fn v27_texture_decode_uses_u16_not_combined_with_u1() {
    let data = make_v27_face_bytes(0xFF, 0x0180, 3);
    let (_, face) = parse_face_data(&data, &ModelVersion::V27).unwrap();
    match face.texture_data {
        TextureData::Texture { texture_id, image_id } => {
            assert_eq!(texture_id, 3, "texture_id should be 0x0180 >> 7 = 3");
            assert_eq!(image_id, 0, "image_id should be 0x0180 & 0x7F = 0");
        }
        TextureData::SolidColor(_) => panic!("expected Texture, got SolidColor"),
    }
}

#[test]
fn v27_u1_byte_does_not_affect_texture_id() {
    let data_a = make_v27_face_bytes(0x00, 0x0400, 3);
    let data_b = make_v27_face_bytes(0xFF, 0x0400, 3);
    let (_, face_a) = parse_face_data(&data_a, &ModelVersion::V27).unwrap();
    let (_, face_b) = parse_face_data(&data_b, &ModelVersion::V27).unwrap();
    match (&face_a.texture_data, &face_b.texture_data) {
        (
            TextureData::Texture { texture_id: tid_a, image_id: iid_a },
            TextureData::Texture { texture_id: tid_b, image_id: iid_b },
        ) => {
            assert_eq!(tid_a, tid_b, "u1 must not contaminate texture_id");
            assert_eq!(iid_a, iid_b, "u1 must not contaminate image_id");
        }
        _ => panic!("expected Texture variants"),
    }
}

#[test]
fn v27_solid_color_when_texture_id_below_2() {
    let data = make_v27_face_bytes(0x00, 0x0042, 3);
    let (_, face) = parse_face_data(&data, &ModelVersion::V27).unwrap();
    match face.texture_data {
        TextureData::SolidColor(idx) => {
            assert_eq!(idx, 0x42, "color_index should be low byte of texture_data");
        }
        TextureData::Texture { .. } => panic!("expected SolidColor for texture_id < 2"),
    }
}

#[test]
fn face_data_rejects_truncated_record() {
    let data = make_v27_face_bytes(0x00, 0x0400, 3);
    assert!(parse_face_data(&data[..data.len() - 1], &ModelVersion::V27).is_err());
}

fn minimal_gxa_bytes() -> Vec<u8> {
    let mut bytes = Vec::new();
    let mut bmhd = vec![0u8; 34];
    bmhd[..4].copy_from_slice(b"TEST");
    bmhd[32..34].copy_from_slice(&1i16.to_le_bytes());
    let mut bpal = vec![0u8; 256 * 3];
    for i in 0..256usize {
        let o = i * 3;
        bpal[o] = u8::try_from(i).unwrap_or_default();
        bpal[o + 1] = u8::try_from(255usize.saturating_sub(i)).unwrap_or_default();
        bpal[o + 2] = 128;
    }
    let mut bbmp = Vec::new();
    bbmp.extend_from_slice(&0i16.to_le_bytes());
    bbmp.extend_from_slice(&2i16.to_le_bytes());
    bbmp.extend_from_slice(&2i16.to_le_bytes());
    bbmp.extend_from_slice(&[0u8; 12]);
    bbmp.extend_from_slice(&[0u8, 1u8, 2u8, 3u8]);
    bytes.extend_from_slice(b"BMHD");
    bytes.extend_from_slice(&(u32::try_from(bmhd.len()).unwrap_or_default()).to_be_bytes());
    bytes.extend_from_slice(&bmhd);
    bytes.extend_from_slice(b"BPAL");
    bytes.extend_from_slice(&(u32::try_from(bpal.len()).unwrap_or_default()).to_be_bytes());
    bytes.extend_from_slice(&bpal);
    bytes.extend_from_slice(b"BBMP");
    bytes.extend_from_slice(&(u32::try_from(bbmp.len()).unwrap_or_default()).to_be_bytes());
    bytes.extend_from_slice(&bbmp);
    bytes.extend_from_slice(b"END ");
    bytes
}

#[test]
fn gxa_minimal_file_has_one_two_by_two_frame() {
    let gxa = parse_gxa_file(&minimal_gxa_bytes()).expect("parse gxa");
    assert_eq!(gxa.frames.len(), 1);
    assert_eq!(gxa.frames[0].width, 2);
    assert_eq!(gxa.frames[0].height, 2);
    assert_eq!(gxa.title, "TEST");
    assert_eq!(gxa.frame_count, 1);
    assert_eq!(
        gxa.frames[0].rgba,
        vec![0, 0, 0, 0, 4, 248, 0, 255, 8, 244, 0, 255, 12, 240, 0, 255]
    );
}

#[test]
fn rle_expands_runs_and_literals() {
    // 0x83: run of 4 copies of the next byte; 0x02: three literal bytes
    let out = decompress_rle(&[0x83, 9, 0x02, 1, 2, 3], 7).expect("rle");
    assert_eq!(out, vec![9, 9, 9, 9, 1, 2, 3]);
    assert!(decompress_rle(&[0x83], 4).is_err());
}

#[test]
fn palette_needs_full_table() {
    assert!(Palette::parse(&vec![0u8; 100]).is_err());
    let mut data = vec![0u8; 776];
    data[8] = 10;
    data[9] = 20;
    data[10] = 30;
    let pal = Palette::parse(&data).expect("palette");
    assert_eq!(pal.colors[0], [10, 20, 30]);
}

use rgpre::import::texture::{
    any_transparent, encode_rgba_png, find_image, palette_color_png, resolve_texbsi_id, texbsi_id_of_name,
};

#[test]
fn texture_numbers_fall_back_to_folded_and_wrapped_ids() {
    let available = vec![302u16, 5];
    assert_eq!(resolve_texbsi_id(&available, 302), 302);
    assert_eq!(resolve_texbsi_id(&available, 302 + 512), 302);
    assert_eq!(resolve_texbsi_id(&available, 505), 5);
    assert_eq!(resolve_texbsi_id(&available, 7), 7);
}

#[test]
fn texture_archive_names_give_numbers() {
    assert_eq!(texbsi_id_of_name("TEXBSI.302"), Some(302));
    assert_eq!(texbsi_id_of_name("texbsi.007"), Some(7));
    assert_eq!(texbsi_id_of_name("TEXBSI.99999"), None);
    assert_eq!(texbsi_id_of_name("TEXBSI."), None);
    assert_eq!(texbsi_id_of_name("PALETTE.COL"), None);
}

#[test]
fn rgba_png_encoding_checks_sizes() {
    let rgba = vec![1, 2, 3, 255, 4, 5, 6, 0];
    let png = encode_rgba_png(2, 1, &rgba, false).expect("png");
    assert_eq!(&png[..8], &[0x89, b'P', b'N', b'G', 0x0D, 0x0A, 0x1A, 0x0A]);
    assert_ne!(png, rgba);
    assert!(encode_rgba_png(0, 1, &[], false).is_none());
    assert!(encode_rgba_png(2, 2, &rgba, false).is_none());
    assert!(any_transparent(&rgba));
    assert!(!any_transparent(&[1, 2, 3, 255]));
    let swatch = palette_color_png([10, 20, 30], true).expect("swatch");
    assert_eq!(&swatch[1..4], b"PNG");
}

#[test]
fn images_are_found_by_number() {
    let mut a = rgpre::import::bsi::BsiImage {
        name: "A".to_string(),
        image_index: 3,
        width: 1,
        height: 1,
        x_offset: 0,
        y_offset: 0,
        frame_count: 1,
        anim_delay: 0,
        tex_scale: 0,
        data_encoding: 0,
        is_animated: false,
        palette: None,
        pixel_data: vec![0],
        extra_frames: vec![],
    };
    let mut b = a.clone();
    b.image_index = 4;
    a.name = "first".to_string();
    let file = rgpre::import::bsi::BsiFile { images: vec![a, b] };
    assert_eq!(find_image(&file, 4), Some(1));
    assert_eq!(find_image(&file, 3), Some(0));
    assert_eq!(find_image(&file, 9), None);
}
