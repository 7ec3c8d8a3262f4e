use rgpre::import::world_ini::{extract_filename, find_world_entry, normalize_ini_path, stem_lower, WorldIni};

const MINIMAL_INI: &str = "\
[world]
start_world=0
world_map[0]=MAPS\\start.rgm
world_world[0]=MAPS\\hideout.WLD
world_palette[0]=3DART\\sunset.COL
";

const MULTI_INI: &str = "\
[world]
world_map[0]=MAPS\\start.rgm
world_world[0]=MAPS\\hideout.WLD
world_palette[0]=3DART\\sunset.COL
world_map[1]=MAPS\\ISLAND.rgm
world_world[1]=MAPS\\ISLAND.WLD
world_palette[1]=3DART\\island.COL
world_map[27]=MAPS\\island.rgm
world_world[27]=MAPS\\ISLand.WLD
world_palette[27]=3DART\\nightsky.COL
world_map[28]=MAPS\\ISLAND.rgm
world_world[28]=MAPS\\ISLAND.WLD
world_palette[28]=3DART\\sunset.COL
";

#[test]
fn parse_single_entry() {
    let ini = WorldIni::parse(MINIMAL_INI);
    assert_eq!(ini.entries.len(), 1);
    let e = &ini.entries[0];
    assert_eq!(e.index, 0);
    assert_eq!(e.map, "MAPS\\start.rgm");
    assert_eq!(e.world.as_deref(), Some("MAPS\\hideout.WLD"));
    assert_eq!(e.palette, "3DART\\sunset.COL");
}

#[test]
fn parse_multiple_entries_sorted() {
    let ini = WorldIni::parse(MULTI_INI);
    assert_eq!(ini.entries.len(), 4);
    assert_eq!(ini.entries[0].index, 0);
    assert_eq!(ini.entries[1].index, 1);
    assert_eq!(ini.entries[2].index, 27);
    assert_eq!(ini.entries[3].index, 28);
}

#[test]
fn find_by_map_stem_case_insensitive() {
    let ini = WorldIni::parse(MULTI_INI);
    let matches = ini.find_by_map_stem("island");
    assert_eq!(matches.len(), 3, "ISLAND.rgm appears in worlds 1, 27, 28");
    assert_eq!(matches[0].index, 1);
    assert_eq!(matches[1].index, 27);
    assert_eq!(matches[2].index, 28);
}

#[test]
fn find_by_map_stem_unique() {
    let ini = WorldIni::parse(MULTI_INI);
    let matches = ini.find_by_map_stem("start");
    assert_eq!(matches.len(), 1);
    assert_eq!(matches[0].palette, "3DART\\sunset.COL");
}

#[test]
fn find_by_world_stem() {
    let ini = WorldIni::parse(MULTI_INI);
    let matches = ini.find_by_world_stem("island");
    assert_eq!(matches.len(), 3, "ISLAND.WLD appears in worlds 1, 27, 28");
}

#[test]
fn find_by_world_stem_hideout() {
    let ini = WorldIni::parse(MULTI_INI);
    let matches = ini.find_by_world_stem("hideout");
    assert_eq!(matches.len(), 1);
    assert_eq!(matches[0].index, 0);
}

#[test]
fn missing_palette_skips_entry() {
    let ini = WorldIni::parse("world_map[5]=MAPS\\observe.rgm\n");
    assert!(ini.entries.is_empty(), "no palette → no entry");
}

#[test]
fn comments_and_blanks_ignored() {
    let content = "\
; this is a comment
# so is this

[world]
world_map[2]=MAPS\\catacomb.rgm
world_palette[2]=3DART\\catacomb.COL
";
    let ini = WorldIni::parse(content);
    assert_eq!(ini.entries.len(), 1);
    assert_eq!(ini.entries[0].index, 2);
}

#[test]
fn extract_filename_handles_backslash() {
    assert_eq!(extract_filename("3DART\\island.COL"), "island.COL");
    assert_eq!(extract_filename("MAPS\\ISLAND.rgm"), "ISLAND.rgm");
    assert_eq!(extract_filename("island.COL"), "island.COL");
}

#[test]
fn stem_lower_normalizes() {
    assert_eq!(stem_lower("3DART\\ISLAND.COL"), "island");
    assert_eq!(stem_lower("MAPS\\start.rgm"), "start");
}

#[test]
fn no_world_field_still_parses() {
    let content = "\
world_map[3]=MAPS\\PALACE.rgm
world_palette[3]=3DART\\palace00.COL
";
    let ini = WorldIni::parse(content);
    assert_eq!(ini.entries.len(), 1);
    assert!(ini.entries[0].world.is_none());
}

#[test]
fn ini_path_backslash_normalization() {
    let path = "MAPS\\ISLAND.RGM";
    let normalized = normalize_ini_path(path);
    assert_eq!(normalized, "MAPS/ISLAND.RGM");
}

#[test]
fn later_lines_override_and_keys_ignore_case() {
    let content = "\
WORLD_MAP[4]=MAPS\\first.rgm
world_map[4] = MAPS\\second.rgm
World_Palette[4]=3DART\\p.COL
world_map[x]=MAPS\\bad.rgm
world_map[4=MAPS\\bad.rgm
";
    let ini = WorldIni::parse(content);
    assert_eq!(ini.entries.len(), 1);
    assert_eq!(ini.entries[0].map, "MAPS\\second.rgm");
    assert_eq!(ini.entries[0].palette, "3DART\\p.COL");
}

#[test]
fn crlf_lines_and_stem_lookup_in_any_case() {
    let content = "world_map[7]=MAPS\\Tower.RGM\r\nworld_palette[7]=3DART\\tower.col\r\n";
    let ini = WorldIni::parse(content);
    assert_eq!(ini.entries.len(), 1);
    assert_eq!(ini.entries[0].map, "MAPS\\Tower.RGM");
    assert_eq!(ini.find_by_map_stem("TOWER").len(), 1);
    assert_eq!(ini.find_by_map_stem("tower").len(), 1);
    assert!(ini.find_by_world_stem("tower").is_empty());
}

#[test]
fn stem_lower_without_extension_and_with_slashes() {
    assert_eq!(stem_lower("  maps/sub/NoExt  "), "noext");
    assert_eq!(stem_lower("a.b.C"), "a.b");
    assert_eq!(extract_filename("dir/"), "");
}

#[test]
fn find_world_entry_by_index() {
    let ini = WorldIni::parse(MULTI_INI);
    let e = find_world_entry(&ini, 27).expect("world 27");
    assert_eq!(e.palette, "3DART\\nightsky.COL");
    assert!(find_world_entry(&ini, 3).is_none());
}
