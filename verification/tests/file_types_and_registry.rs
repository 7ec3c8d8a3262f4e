use rgpre::import::registry::Registry;
use rgpre::import::{parse_file_type, FileType};

#[test]
fn filetype_resolution_covers_all_variants() {
    let cases = [
        ("texture.bsi", "bsi", FileType::Bsi),
        ("palette.col", "col", FileType::Col),
        ("model.3d", "3d", FileType::Model3d),
        ("model.3dc", "3dc", FileType::Model3dc),
        ("scene.rob", "rob", FileType::Rob),
        ("scene.rgm", "rgm", FileType::Rgm),
        ("octree.pvo", "pvo", FileType::Pvo),
        ("world.wld", "wld", FileType::Wld),
        ("font.fnt", "fnt", FileType::Fnt),
        ("startup.gxa", "gxa", FileType::Gxa),
    ];
    for (path, token, expected) in cases {
        let resolved_from_path = FileType::from_path(path)
            .unwrap_or_else(|| panic!("expected extension resolution for '{path}'"));
        assert_eq!(resolved_from_path, expected, "FileType::from_path mismatch for '{path}'");
        let resolved_from_str: FileType = token
            .parse()
            .unwrap_or_else(|e| panic!("expected parse for '{token}': {e}"));
        assert_eq!(resolved_from_str, expected, "FileType::from_str mismatch for '{token}'");
    }
}

#[test]
fn extensions_round_trip_in_any_case() {
    for ft in FileType::all() {
        let ext = ft.extensions()[0].trim_start_matches('.');
        assert_eq!(FileType::from_extension(ext), Some(ft));
        assert_eq!(FileType::from_extension(&ext.to_ascii_uppercase()), Some(ft));
    }
    assert_eq!(FileType::from_extension("txt"), None);
}

#[test]
fn texbsi_stem_names_texture_archive() {
    assert_eq!(FileType::from_path("fxart/TEXBSI.302"), Some(FileType::Bsi));
    assert_eq!(FileType::from_path("fxart/texbsi.001"), Some(FileType::Bsi));
    assert_eq!(FileType::from_path("fxart/readme"), None);
}

#[test]
fn unknown_type_token_is_reported() {
    let err = parse_file_type("xyz").expect_err("unknown token");
    assert_eq!(
        err,
        "Unknown file type: xyz. Supported types: bsi, cht, col, 3d, 3dc, rob, rgm, pvo, wld, fnt, gxa, sfx, rtx"
    );
    assert_eq!(parse_file_type("  RGM ").unwrap(), FileType::Rgm);
}

#[test]
fn display_names() {
    assert_eq!(FileType::Rob.display_name(), "ROB World");
    assert_eq!(FileType::Rtx.display_name(), "Dialogue Audio");
}

#[test]
fn source_rank_prefers_fxart_over_3dart() {
    let reg = Registry::new("/root".to_string());
    let fxart = reg.source_rank_key("/root/fxart/FOO.ROB");
    let maps = reg.source_rank_key("/root/maps/FOO.ROB");
    let art3d = reg.source_rank_key("/root/3dart/FOO.ROB");
    assert!(fxart < maps, "fxart should rank before maps");
    assert!(maps < art3d, "maps should rank before 3dart");
}

#[test]
fn duplicate_rob_from_different_dirs_both_kept() {
    let mut reg = Registry::new("/root".to_string());
    reg.add_file("/root/3dart/FOO.ROB", FileType::Rob);
    reg.add_file("/root/fxart/FOO.ROB", FileType::Rob);
    let has_primary = reg.has_model("FOO");
    let has_dup = reg.has_model("FOO#1");
    assert!(has_primary, "primary ROB key must exist");
    assert!(has_dup, "duplicate ROB must be kept under synthetic key");
}

#[test]
fn different_type_same_stem_both_kept() {
    let mut reg = Registry::new("/root".to_string());
    reg.add_file("/root/fxart/ISLAND.ROB", FileType::Rob);
    reg.add_file("/root/fxart/ISLAND.COL", FileType::Col);
    let has_primary = reg.has_model("ISLAND");
    let has_dup = reg.has_model("ISLAND#1");
    assert!(has_primary, "primary entry must exist");
    assert!(has_dup, "different-type same-stem must be kept under synthetic key");
}

#[test]
fn same_type_same_path_not_duplicated() {
    let mut reg = Registry::new("/root".to_string());
    reg.add_file("/root/fxart/FOO.ROB", FileType::Rob);
    reg.add_file("/root/fxart/FOO.ROB", FileType::Rob);
    assert!(reg.has_model("FOO"));
    assert!(!reg.has_model("FOO#1"), "identical path should not create duplicate");
}

#[test]
fn better_ranked_same_type_file_replaces_entry() {
    let mut reg = Registry::new("/root".to_string());
    reg.add_file("/root/3dart/BAR.3D", FileType::Model3d);
    reg.add_file("/root/fxart/BAR.3D", FileType::Model3d);
    let e = reg.get_file_by_name("BAR").expect("entry");
    assert_eq!(e.path, "/root/fxart/BAR.3D");
    assert!(!reg.has_model("BAR#1"));
    reg.add_file("/root/3dart/BAR.3D", FileType::Model3d);
    assert_eq!(reg.get_file_by_path("/elsewhere/BAR.3D").expect("entry").path, "/root/fxart/BAR.3D");
}

#[test]
fn third_archive_takes_next_free_suffix() {
    let mut reg = Registry::new("/root".to_string());
    reg.add_file("/root/a/X.ROB", FileType::Rob);
    reg.add_file("/root/b/X.ROB", FileType::Rob);
    reg.add_file("/root/c/X.ROB", FileType::Rob);
    let mut names: Vec<String> = reg.get_all_names().into_iter().cloned().collect();
    names.sort();
    assert_eq!(names, vec!["X".to_string(), "X#1".to_string(), "X#2".to_string()]);
    assert_eq!(reg.get_file_by_name("X#2").expect("entry").name, "X");
}
