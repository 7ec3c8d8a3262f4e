use rgpre::commands::{
    asset_root_override, build_resolved_filenames, irrelevant_flag_warnings, plan_texbsi_export, sanitize_filename,
    scan_summary, texbsi_modes, ConvertArgs, OutputFormat, MAX_FILENAME_LEN,
};
use rgpre::import::bsi::{BsiFile, BsiImage};
use rgpre::import::registry::Registry;
use rgpre::import::rtx::RtxEntry;
use rgpre::import::FileType;

#[test]
fn sanitize_basic_name() {
    assert_eq!(sanitize_filename("SABRE"), "sabre");
}

#[test]
fn sanitize_multi_word() {
    assert_eq!(sanitize_filename("SOUL SWORD"), "soul_sword");
}

#[test]
fn sanitize_apostrophe() {
    assert_eq!(sanitize_filename("SPIDER'S MILK"), "spiders_milk");
}

#[test]
fn sanitize_sentence() {
    assert_eq!(
        sanitize_filename("GET BACK IN YOUR JAR, YOU FILTHY LITTLE THING."),
        "get_back_in_your_jar_you_filthy_little_thing"
    );
}

#[test]
fn sanitize_question_mark() {
    assert_eq!(sanitize_filename("WHICH DOOR IS CORRECT?"), "which_door_is_correct");
}

#[test]
fn sanitize_empty() {
    assert_eq!(sanitize_filename(""), "");
}

#[test]
fn sanitize_truncates_long_name() {
    let long = "A ".repeat(100);
    let result = sanitize_filename(&long);
    assert!(result.len() <= MAX_FILENAME_LEN);
    assert!(!result.ends_with('_'));
}

#[test]
fn sanitize_cuts_after_eighty_without_separator() {
    let long = "B".repeat(100);
    assert_eq!(sanitize_filename(&long), "b".repeat(80));
    assert_eq!(sanitize_filename("  --lead__and--trail--  "), "lead_and_trail");
}

#[test]
fn dedup_identical_names() {
    let entries = vec![
        RtxEntry::Text { tag: *b"xr01", text: "RUNE".to_string() },
        RtxEntry::Text { tag: *b"xr02", text: "RUNE".to_string() },
        RtxEntry::Text { tag: *b"xr03", text: "RUNE".to_string() },
    ];
    let names = build_resolved_filenames(&entries);
    assert_eq!(names[0], "rune");
    assert_eq!(names[1], "rune_2");
    assert_eq!(names[2], "rune_3");
}

#[test]
fn resolved_names_fall_back_to_tag() {
    let entries = vec![
        RtxEntry::Text { tag: *b"ab01", text: "???".to_string() },
        RtxEntry::Text { tag: *b"ab02", text: "Hello there".to_string() },
        RtxEntry::Text { tag: *b"ab03", text: "HELLO THERE!".to_string() },
    ];
    let names = build_resolved_filenames(&entries);
    assert_eq!(names, vec!["ab01".to_string(), "hello_there".to_string(), "hello_there_2".to_string()]);
}

fn args() -> ConvertArgs {
    ConvertArgs {
        file: "x".to_string(),
        output: None,
        assets: None,
        asset_path: None,
        palette: None,
        asset_dir: None,
        format: None,
        terrain_only: false,
        terrain_textures: true,
        compress_textures: false,
        resolve_names: false,
    }
}

#[test]
fn flags_for_other_types_are_reported() {
    let mut a = args();
    a.terrain_only = true;
    a.terrain_textures = false;
    a.format = Some(OutputFormat::Ttf);
    a.compress_textures = true;
    let w = irrelevant_flag_warnings(&a, FileType::Sfx);
    assert_eq!(
        w,
        vec![
            "--terrain-only has no effect for Sound Effects files (WLD only)".to_string(),
            "--terrain-textures has no effect for Sound Effects files (WLD only)".to_string(),
            "--format Ttf has no effect for Sound Effects files".to_string(),
            "--compress-textures has no effect for Sound Effects files (image/GLB output only)".to_string(),
        ]
    );
    assert!(irrelevant_flag_warnings(&a, FileType::Wld).len() == 1);
    let mut b = args();
    b.format = Some(OutputFormat::Png);
    assert!(irrelevant_flag_warnings(&b, FileType::Col).is_empty());
    assert!(irrelevant_flag_warnings(&args(), FileType::Rgm).is_empty());
}

#[test]
fn asset_root_prefers_assets_then_aliases() {
    let mut a = args();
    assert_eq!(asset_root_override(&a), None);
    a.asset_dir = Some("dir".to_string());
    assert_eq!(asset_root_override(&a), Some("dir".to_string()));
    a.asset_path = Some("path".to_string());
    assert_eq!(asset_root_override(&a), Some("path".to_string()));
    a.assets = Some("assets".to_string());
    assert_eq!(asset_root_override(&a), Some("assets".to_string()));
}

fn image(name: &str, width: u16, frame_count: u16, extra: usize) -> BsiImage {
    BsiImage {
        name: name.to_string(),
        image_index: 0,
        width,
        height: width,
        x_offset: 0,
        y_offset: 0,
        frame_count,
        anim_delay: 0,
        tex_scale: 0,
        data_encoding: 0,
        is_animated: frame_count > 1,
        palette: None,
        pixel_data: vec![0; usize::from(width) * usize::from(width)],
        extra_frames: vec![vec![0; usize::from(width) * usize::from(width)]; extra],
    }
}

#[test]
fn texbsi_export_names_files_by_format() {
    assert_eq!(texbsi_modes(None), (true, false));
    assert_eq!(texbsi_modes(Some(OutputFormat::Frames)), (false, true));
    assert_eq!(texbsi_modes(Some(OutputFormat::Png)), (false, false));
    let file = BsiFile { images: vec![image("WATER", 2, 3, 1), image("EMPTY", 0, 1, 0), image("ROCK", 2, 1, 0)] };
    let gif = plan_texbsi_export(&file, None);
    assert_eq!(gif.len(), 2);
    assert_eq!(gif[0].image, 0);
    assert!(gif[0].animated_gif);
    assert_eq!(gif[0].files, vec!["WATER.gif".to_string()]);
    assert_eq!(gif[1].image, 2);
    assert_eq!(gif[1].primary, "ROCK.png");
    let frames = plan_texbsi_export(&file, Some(OutputFormat::Frames));
    assert_eq!(frames[0].files, vec!["WATER.png".to_string(), "WATER_frame01.png".to_string()]);
    assert_eq!(frames[0].frames, vec![1]);
    assert!(!frames[0].animated_gif);
}

#[test]
fn scan_summary_orders_types_by_name() {
    let mut reg = Registry::new("/g".to_string());
    reg.add_file("/g/a/ONE.ROB", FileType::Rob);
    reg.add_file("/g/a/TWO.ROB", FileType::Rob);
    reg.add_file("/g/b/PAL.COL", FileType::Col);
    reg.add_file("/g/b/X.3D", FileType::Model3d);
    let (total, groups) = scan_summary(&reg);
    assert_eq!(total, 4);
    let names: Vec<&str> = groups.iter().map(|g| g.display_name.as_str()).collect();
    assert_eq!(names, vec!["Model", "Palette", "ROB World"]);
    assert_eq!(groups[2].count, 2);
    assert_eq!(groups[2].extensions, vec![".rob".to_string()]);
    assert_eq!(groups[0].file_type, FileType::Model3d);
}
