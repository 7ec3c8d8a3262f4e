use rgpre::import::fnt::{FntFile, FntGlyph, FntHeader, FntPalette};
use rgpre::import::fnt_atlas::glyph_atlas;
use rgpre::import::fnt_ttf::{build_ttf_from_fnt, fnt_glyph_bitmaps, ttf_request};

fn sample_fnt() -> FntFile {
    let header = FntHeader {
        description_raw: [0; 32],
        description_text: "TEST".to_string(),
        unknown_24: 0,
        has_rdat: 0,
        unknown_28: 0,
        unknown_2a: 0,
        unknown_2c: 0,
        max_width: 2,
        line_height: 8,
        character_start: 32,
        character_count: 1,
        unknown_36: 0,
        unknown_38: 0,
        has_palette: 1,
    };

    let palette = FntPalette { tag: *b"BPAL", colors: vec![[0, 0, 0], [63, 63, 63]] };

    let glyph = FntGlyph { enabled: 1, offset_left: 0, offset_top: 0, width: 2, height: 2, pixels: vec![1, 1, 1, 1] };

    FntFile {
        chunk_order: vec!["FNHD".to_string(), "BPAL".to_string(), "FBMP".to_string(), "END".to_string()],
        header,
        palette,
        glyphs: vec![glyph],
        rdat: None,
        trailing_padding: vec![],
    }
}

#[test]
fn default_profile_generates_parseable_ttf() {
    let bytes = build_ttf_from_fnt(&sample_fnt(), "UnitTest Font").expect("ttf generation should succeed");

    let face = ttf_parser::Face::parse(&bytes, 0).expect("ttf should parse");
    assert!(face.number_of_glyphs() >= 2);
    assert!(face.units_per_em() > 0);
}

#[test]
fn disabled_glyphs_are_blank_and_codepoints_count_up() {
    let mut fnt = sample_fnt();
    fnt.glyphs.push(FntGlyph { enabled: 0, offset_left: 1, offset_top: -1, width: 1, height: 2, pixels: vec![5, 6] });
    let bitmaps = fnt_glyph_bitmaps(&fnt);
    assert_eq!(bitmaps.len(), 2);
    assert_eq!(bitmaps[0].codepoint, 32);
    assert_eq!(bitmaps[0].pixels, vec![1, 1, 1, 1]);
    assert_eq!(bitmaps[1].codepoint, 33);
    assert_eq!(bitmaps[1].pixels, vec![0, 0]);
    assert_eq!(bitmaps[1].offset_y, -1);
}

#[test]
fn font_without_glyphs_is_refused() {
    let mut fnt = sample_fnt();
    fnt.glyphs.clear();
    assert!(build_ttf_from_fnt(&fnt, "Empty").is_err());
}

#[test]
fn ttf_request_carries_glyphs_name_and_line_height() {
    let mut fnt = sample_fnt();
    fnt.header.line_height = 0;
    let req = ttf_request(&fnt, "Ui Font");
    assert_eq!(req.family_name, "Ui Font");
    assert_eq!(req.line_height, 1);
    assert_eq!(req.glyphs.len(), 1);
    assert_eq!(req.glyphs[0].codepoint, 32);
    assert_eq!(req.glyphs[0].pixels, vec![1, 1, 1, 1]);
    assert_eq!(ttf_request(&sample_fnt(), "X").line_height, 8);
}

#[test]
fn atlas_places_glyphs_side_by_side_with_a_gap() {
    let mut fnt = sample_fnt();
    fnt.glyphs.push(FntGlyph { enabled: 1, offset_left: 0, offset_top: 0, width: 1, height: 3, pixels: vec![2, 3, 4] });
    let atlas = glyph_atlas(&fnt_glyph_bitmaps(&fnt)).expect("small atlas");
    assert_eq!((atlas.width, atlas.height), (5, 3));
    assert_eq!(atlas.x, vec![0, 3]);
    assert_eq!(
        atlas.pixels,
        vec![
            1, 1, 0, 2, 0, //
            1, 1, 0, 3, 0, //
            0, 0, 0, 4, 0,
        ]
    );
    let empty = glyph_atlas(&Vec::new()).expect("empty atlas");
    assert_eq!((empty.width, empty.height, empty.pixels), (1, 1, vec![0]));
}
