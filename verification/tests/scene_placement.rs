use rgpre::import::model3d::mesh::model_triangles_of;
use rgpre::import::model3d::{
    FaceData, FaceVertex, Model3DFile, Model3DHeader, ModelVersion, TextureData, VertexCoord,
};
use rgpre::import::registry::Registry;
use rgpre::import::rgm::scene::{first_section_payload, plan_scene_models, scene_model_names, SceneFrame, SceneSource};
use rgpre::import::rgm::placement::{plan_placements, PlacementFrame, PlacementType};
use rgpre::import::rgm::positioning::{
    rob_search_order,
    apply_texture_override, find_model_entry, model_file_rank, model_name_candidates, parse_mprp_records, parse_mpsf_records,
    parse_raan_model_name, parse_rahd_raan_index, parse_rahd_texture_overrides, resolve_mpob_model_name,
};
use rgpre::import::rgm::{MpobRecord, MpsRecord, MpslRecord, RgmFile, RgmSection, RgmSectionHeader};
use rgpre::import::FileType;

fn header(name: &[u8; 4]) -> RgmSectionHeader {
    RgmSectionHeader { name: *name, data_length: 0, record_count: None }
}

fn mpsf_bytes() -> Vec<u8> {
    let mut d = 2u32.to_le_bytes().to_vec();
    for (x, tex) in [(-2i32, 0x0183u16), (5, 0x0005)] {
        let mut item = vec![0u8; 24];
        item[8..11].copy_from_slice(&x.to_le_bytes()[..3]);
        item[12..15].copy_from_slice(&7i32.to_le_bytes()[..3]);
        item[16..19].copy_from_slice(&[1, 2, 3]);
        item[20..22].copy_from_slice(&tex.to_le_bytes());
        d.extend_from_slice(&item);
    }
    d
}

#[test]
fn flat_sprites_decode_position_and_texture() {
    let recs = parse_mpsf_records(&mpsf_bytes());
    assert_eq!(recs.len(), 2);
    assert_eq!(recs[0].pos_x, -2);
    assert_eq!(recs[0].pos_y, 7);
    assert_eq!(recs[0].pos_z, 0x030201);
    assert_eq!(recs[0].texture_id, 3);
    assert_eq!(recs[0].image_id, 3);
    assert_eq!(recs[1].texture_id, 0);
    assert_eq!(recs[1].image_id, 5);
    let mut short = mpsf_bytes();
    short.truncate(4 + 24 + 10);
    assert_eq!(parse_mpsf_records(&short).len(), 1);
    assert!(parse_mpsf_records(&[1, 0]).is_empty());
}

fn mprp_bytes(length: i16, static_model: &[u8], rope_model: &[u8]) -> Vec<u8> {
    let mut d = 1u32.to_le_bytes().to_vec();
    let mut rec = vec![0u8; 80];
    rec[5..8].copy_from_slice(&[0xFF, 0xFF, 0xFF]);
    rec[32..34].copy_from_slice(&length.to_le_bytes());
    rec[34..34 + static_model.len()].copy_from_slice(static_model);
    rec[43..43 + rope_model.len()].copy_from_slice(rope_model);
    d.extend_from_slice(&rec);
    d
}

#[test]
fn ropes_read_names_and_length() {
    let recs = parse_mprp_records(&mprp_bytes(2, b"BELL.3D", b"LINK"));
    assert_eq!(recs.len(), 1);
    assert_eq!(recs[0].pos_x, -1);
    assert_eq!(recs[0].length, 2);
    assert_eq!(recs[0].static_model, "BELL.3D");
    assert_eq!(recs[0].rope_model, "LINK");
}

fn rahd_bytes() -> Vec<u8> {
    let mut d = vec![0u8; 8 + 165 * 2];
    d[0..4].copy_from_slice(&2u32.to_le_bytes());
    let a = 8;
    d[a + 4..a + 9].copy_from_slice(b"GUARD");
    d[a + 0x21..a + 0x25].copy_from_slice(&3i32.to_le_bytes());
    d[a + 0x29..a + 0x2D].copy_from_slice(&12i32.to_le_bytes());
    d[a + 0x9B..a + 0x9D].copy_from_slice(&302i16.to_le_bytes());
    let b = 8 + 165;
    d[b + 4..b + 8].copy_from_slice(b"DOOR");
    d[b + 0x21..b + 0x25].copy_from_slice(&0i32.to_le_bytes());
    d[b + 0x9B..b + 0x9D].copy_from_slice(&(-4i16).to_le_bytes());
    d
}

#[test]
fn actor_records_index_animations_and_textures() {
    let raan = parse_rahd_raan_index(&rahd_bytes());
    assert_eq!(raan, vec![("GUARD".to_string(), (12, 3))]);
    let tex = parse_rahd_texture_overrides(&rahd_bytes());
    assert_eq!(tex, vec![("GUARD".to_string(), 302)]);
    assert!(parse_rahd_raan_index(&[0u8; 4]).is_empty());
}

#[test]
fn animation_file_names_reduce_to_model_stem() {
    let mut raan = vec![0u8; 6];
    raan.extend_from_slice(b"C:\\ART\\3DART\\guard.3dc\0");
    assert_eq!(parse_raan_model_name(&raan, 0), Some("GUARD".to_string()));
    let unterminated = vec![0u8, 0, 0, 0, 0, 0, b'a'];
    assert_eq!(parse_raan_model_name(&unterminated, 0), None);
    assert_eq!(parse_raan_model_name(&raan, 100), None);
    let mut empty_stem = vec![0u8; 6];
    empty_stem.extend_from_slice(b"dir/.3d\0");
    assert_eq!(parse_raan_model_name(&empty_stem, 0), None);
}

fn mpob(model: &[u8], script: &[u8]) -> MpobRecord {
    let mut model_name = [0u8; 9];
    model_name[..model.len()].copy_from_slice(model);
    let mut script_name = [0u8; 9];
    script_name[..script.len()].copy_from_slice(script);
    MpobRecord {
        id: 0,
        object_type: 0,
        is_active: 0,
        script_name,
        model_name,
        is_static: 0,
        unknown1: 0,
        pos_x: 0,
        pad_x: 0,
        pos_y: 0,
        pad_y: 0,
        pos_z: 0,
        angle_x: 0,
        angle_y: 0,
        angle_z: 0,
        texture_data_raw: 0,
        texture_id: 0,
        image_id: 0,
        intensity: 0,
        radius: 0,
        model_id: 0,
        world_id: 0,
        red: 0,
        green: 0,
        blue: 0,
    }
}

#[test]
fn scripted_object_model_falls_back_to_animation_then_script() {
    let mut raan = vec![0u8; 12 + 6];
    raan.extend_from_slice(b"guard.3dc\0");
    let index = parse_rahd_raan_index(&rahd_bytes());
    assert_eq!(resolve_mpob_model_name(&mpob(b"CHEST", b"GUARD"), "GUARD", Some(&raan), &index), "CHEST");
    assert_eq!(resolve_mpob_model_name(&mpob(b"", b"GUARD"), "GUARD", Some(&raan), &index), "GUARD");
    assert_eq!(resolve_mpob_model_name(&mpob(b"", b"GUARD"), "GUARD", None, &index), "GUARD");
    assert_eq!(resolve_mpob_model_name(&mpob(b"", b"DOOR"), "DOOR", Some(&raan), &index), "DOOR");
    let mut raan2 = vec![0u8; 12 + 6];
    raan2.extend_from_slice(b"art/Knight.3d\0");
    assert_eq!(resolve_mpob_model_name(&mpob(b"", b"GUARD"), "GUARD", Some(&raan2), &index), "KNIGHT");
}

#[test]
fn model_candidates_are_sorted_and_unique() {
    assert_eq!(
        model_name_candidates(" foo.3d\0"),
        vec!["FOO".to_string(), "FOO.3D".to_string(), "foo".to_string(), "foo.3d".to_string()]
    );
    assert_eq!(model_name_candidates("BAR"), vec!["BAR".to_string()]);
    assert!(model_name_candidates("\0\0 ").is_empty());
    assert_eq!(model_file_rank(FileType::Model3dc), Some(0));
    assert_eq!(model_file_rank(FileType::Col), None);
}

#[test]
fn model_lookup_prefers_type_then_source() {
    let mut reg = Registry::new("/g".to_string());
    reg.add_file("/g/3dart/TREE.ROB", FileType::Rob);
    reg.add_file("/g/3dart/TREE.3D", FileType::Model3d);
    reg.add_file("/g/fxart/TREE.3D", FileType::Model3d);
    reg.add_file("/g/fxart/TREE.COL", FileType::Col);
    let found = find_model_entry(&reg, &model_name_candidates("tree")).expect("model");
    assert_eq!(found.path, "/g/fxart/TREE.3D");
    assert!(find_model_entry(&reg, &model_name_candidates("bush")).is_none());
}

fn mps(name: &[u8]) -> MpsRecord {
    let mut model_name = [0u8; 12];
    model_name[..name.len()].copy_from_slice(name);
    MpsRecord { id: 0, model_name, pos_x: 1, pos_y: 2, pos_z: 3, rotation_matrix: [0; 9], trailing: [0; 2] }
}

#[test]
fn placements_follow_section_order_and_naming() {
    let light = MpslRecord {
        color_r: 1,
        color_g: 2,
        color_b: 3,
        color_flags: 0,
        unknown0: 0,
        pos_x: 0,
        pos_y: 0,
        pos_z: 0,
        param0: 0,
        param1: 0,
        unknown1: [0; 18],
    };
    let rgm = RgmFile {
        sections: vec![
            RgmSection::Mps(header(b"MPSO"), vec![mps(b"HOUSE.3D"), mps(b""), mps(b"WELL")]),
            RgmSection::Mprp(header(b"MPRP"), mprp_bytes(2, b"BELL.3D", b"LINK.3D")),
            RgmSection::Mpf(header(b"MPSF"), mpsf_bytes()),
            RgmSection::MplParsed(header(b"MPSL"), vec![light]),
        ],
    };
    let (placements, lights) = plan_placements(&rgm);
    let ids: Vec<&str> = placements.iter().map(|p| p.source_id.as_str()).collect();
    assert_eq!(ids, vec!["S000_HOUSE", "S002_WELL", "R000_000_LINK", "R000_001_LINK", "R000_002_BELL", "F000", "F001"]);
    assert_eq!(placements[0].model_name, "HOUSE");
    assert_eq!(placements[3].object_type, PlacementType::RopeLink);
    assert_eq!(placements[4].object_type, PlacementType::Mesh);
    match placements[4].frame {
        PlacementFrame::Dropped { pos_x, drops, .. } => {
            assert_eq!(pos_x, -1);
            assert_eq!(drops, 3);
        }
        PlacementFrame::Static(_) => panic!("rope end is placed by position"),
    }
    assert_eq!(placements[5].object_type, PlacementType::FlatSprite);
    assert_eq!(placements[5].texture_id, 3);
    assert_eq!(lights.len(), 1);
    assert_eq!(lights[0].name, "L000");
}

fn section(tag: &[u8; 4], payload: &[u8]) -> Vec<u8> {
    let mut v = tag.to_vec();
    v.extend_from_slice(&u32::try_from(payload.len()).unwrap_or_default().to_be_bytes());
    v.extend_from_slice(payload);
    v
}

#[test]
fn first_section_payload_stops_at_end_tag() {
    let mut file = section(b"RAST", &[1, 2]);
    file.extend(section(b"RAHD", &[3, 4, 5]));
    file.extend(section(b"END ", &[]));
    file.extend(section(b"RAAN", &[9]));
    assert_eq!(first_section_payload(&file, *b"RAHD"), Some(&[3u8, 4, 5][..]));
    assert_eq!(first_section_payload(&file, *b"RAAN"), None);
    assert_eq!(first_section_payload(&file[..10], *b"RAHD"), None);
}

#[test]
fn scene_models_use_found_names_and_actor_textures() {
    let mut input = section(b"RAHD", &rahd_bytes());
    input.extend(section(b"END ", &[]));
    let rgm = RgmFile {
        sections: vec![
            RgmSection::Mps(header(b"MPSO"), vec![mps(b"HOUSE.3D"), mps(b"MISSING")]),
            RgmSection::MpobParsed(header(b"MPOB"), vec![mpob(b"CHEST", b"GUARD"), mpob(b"LOST", b"DOOR")]),
            RgmSection::Mprp(header(b"MPRP"), mprp_bytes(2, b"BELL.3D", b"NOLINK")),
            RgmSection::Mpf(header(b"MPSF"), mpsf_bytes()),
        ],
    };
    let names = scene_model_names(&input, &rgm);
    assert_eq!(names, vec!["HOUSE.3D", "MISSING", "CHEST", "LOST", "NOLINK", "BELL.3D"]);
    let available = vec!["HOUSE.3D".to_string(), "CHEST".to_string(), "BELL.3D".to_string()];
    let (models, lights) = plan_scene_models(&input, &rgm, &available);
    assert!(lights.is_empty());
    let shown: Vec<&str> = models.iter().map(|m| m.model_name.as_str()).collect();
    assert_eq!(shown, vec!["S000_HOUSE.3D", "B_000_GUARD", "B_001_DOOR", "R000_002_BELL.3D", "F000_3/3", "F001_0/5"]);
    assert_eq!(models[1].texture_override, Some(302));
    assert_eq!(models[1].source_id.as_deref(), Some("CHEST:tex302"));
    assert!(matches!(models[2].source, SceneSource::Empty));
    assert!(models[2].source_id.is_none());
    match models[3].frame {
        SceneFrame::Dropped { drops, .. } => assert_eq!(drops, 1),
        _ => panic!("rope end is placed by position"),
    }
    assert!(matches!(models[4].source, SceneSource::Flat { texture_id: 3, image_id: 3 }));
    for m in &models {
        if let SceneSource::Named(n) = &m.source {
            assert!(available.contains(n), "shown by a name that was not found: {n}");
        }
    }
}

fn face(vertices: &[u32], texture: TextureData) -> FaceData {
    FaceData {
        vertex_count: u8::try_from(vertices.len()).unwrap_or_default(),
        tex_hi: 0,
        texture_data: texture,
        face_vertices: vertices.iter().map(|&v| FaceVertex { vertex_index: v, u: 1, v: 2 }).collect(),
    }
}

fn model(faces: Vec<FaceData>, vertex_count: usize) -> Model3DFile {
    Model3DFile {
        header: Model3DHeader {
            version: *b"v2.7",
            num_vertices: 0,
            num_faces: 0,
            radius: 0,
            num_frames: 0,
            offset_frame_data: 0,
            total_face_vertices: 0,
            offset_section4: 0,
            section4_count: 0,
            _unused_24: 0,
            offset_normal_indices: 0,
            offset_vertex_normals: 0,
            offset_vertex_coords: 0,
            offset_face_normals: 0,
            total_face_vertices_dup: 0,
            offset_face_data: 0,
        },
        version: ModelVersion::V27,
        frame_data: vec![],
        face_data: faces,
        vertex_coords: vec![VertexCoord { x: 0, y: 0, z: 0 }; vertex_count],
        face_normals: vec![],
        normal_indices: vec![],
        vertex_normals: vec![],
        frame_vertex_data: vec![],
        frame_normal_data: vec![],
    }
}

#[test]
fn faces_become_fans_and_bad_vertices_are_dropped() {
    let m = model(
        vec![
            face(&[0, 1], TextureData::SolidColor(1)),
            face(&[0, 1, 2, 3], TextureData::SolidColor(1)),
            face(&[0, 9, 1], TextureData::SolidColor(1)),
        ],
        4,
    );
    let tris = model_triangles_of(&m);
    assert_eq!(tris.len(), 2);
    let t0: Vec<(usize, usize)> = tris[0].corners.iter().map(|c| (c.vertex, c.face_vertex)).collect();
    assert_eq!(t0, vec![(0, 2), (2, 4), (1, 3)]);
    let t1: Vec<(usize, usize)> = tris[1].corners.iter().map(|c| (c.vertex, c.face_vertex)).collect();
    assert_eq!(t1, vec![(0, 2), (3, 5), (2, 4)]);
    assert_eq!(tris[1].face, 1);
}

#[test]
fn actor_texture_replaces_model_textures() {
    let mut m = model(
        vec![
            face(&[0, 1, 2], TextureData::SolidColor(7)),
            face(&[0, 1, 2], TextureData::Texture { texture_id: 1, image_id: 4 }),
            face(&[0, 1, 2], TextureData::Texture { texture_id: 9, image_id: 4 }),
        ],
        3,
    );
    apply_texture_override(&mut m, 302);
    assert!(matches!(m.face_data[0].texture_data, TextureData::Texture { texture_id: 302, image_id: 0 }));
    assert!(matches!(m.face_data[1].texture_data, TextureData::Texture { texture_id: 1, image_id: 4 }));
    assert!(matches!(m.face_data[2].texture_data, TextureData::Texture { texture_id: 302, image_id: 4 }));
}

#[test]
fn rob_search_order_puts_the_scene_rob_first_then_by_path() {
    let mut reg = Registry::new("/g".to_string());
    reg.add_file("/g/3dart/ISLAND.ROB", FileType::Rob);
    reg.add_file("/g/maps/TOWN.ROB", FileType::Rob);
    reg.add_file("/g/3dart/TREE.3D", FileType::Model3d);
    reg.add_file("/g/fxart/CAVE.ROB", FileType::Rob);
    let names = |order: Vec<usize>| -> Vec<String> { order.into_iter().map(|i| reg.files[i].0.clone()).collect() };
    assert_eq!(names(rob_search_order(&reg, Some("island"))), vec!["ISLAND", "CAVE", "TOWN"]);
    assert_eq!(names(rob_search_order(&reg, None)), vec!["CAVE", "TOWN", "ISLAND"]);
}
