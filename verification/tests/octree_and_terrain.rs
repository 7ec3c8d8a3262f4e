use rgpre::error::Error;
use rgpre::import::pvo::{parse_octr_nodes, parse_pvo_file, LEAF_REF_NONE};
use rgpre::import::wld::{
    parse_wld_file, WldFile, WldHeader, WldSection, WLD_FOOTER_BYTES, WLD_HEADER_DWORDS, WLD_MAP_BYTES,
    WLD_MAP_SIDE, WLD_SECTION_HEADER_BYTES,
};

fn build_minimal_pvo() -> Vec<u8> {
    let mut buf = Vec::new();
    buf.extend_from_slice(b"OCTH");
    buf.extend_from_slice(&52u32.to_be_bytes());
    buf.extend_from_slice(&10u32.to_le_bytes());
    buf.extend_from_slice(&2u32.to_le_bytes());
    buf.extend_from_slice(&1u32.to_le_bytes());
    buf.extend_from_slice(&3u32.to_le_bytes());
    buf.extend_from_slice(&0u32.to_le_bytes());
    buf.extend_from_slice(&16384u32.to_le_bytes());
    buf.extend_from_slice(&100i32.to_le_bytes());
    buf.extend_from_slice(&(-200i32).to_le_bytes());
    buf.extend_from_slice(&300i32.to_le_bytes());
    for _ in 0..4 {
        buf.extend_from_slice(&0u32.to_le_bytes());
    }
    let mut octr = Vec::new();
    octr.push(0x01);
    octr.extend_from_slice(&LEAF_REF_NONE.to_le_bytes());
    octr.extend_from_slice(&9u32.to_le_bytes());
    octr.push(0x00);
    octr.extend_from_slice(&0u32.to_le_bytes());
    buf.extend_from_slice(b"OCTR");
    let octr_len = u32::try_from(octr.len()).expect("test OCTR length fits u32");
    buf.extend_from_slice(&octr_len.to_be_bytes());
    buf.extend_from_slice(&octr);
    let mut plst = Vec::new();
    plst.push(1u8);
    plst.extend_from_slice(&3u16.to_le_bytes());
    plst.extend_from_slice(&0u32.to_le_bytes());
    buf.extend_from_slice(b"PLST");
    let plst_len = u32::try_from(plst.len()).expect("test PLST length fits u32");
    buf.extend_from_slice(&plst_len.to_be_bytes());
    buf.extend_from_slice(&plst);
    let mut mlst = Vec::new();
    mlst.extend_from_slice(&10u16.to_le_bytes());
    mlst.extend_from_slice(&20u16.to_le_bytes());
    mlst.extend_from_slice(&30u16.to_le_bytes());
    buf.extend_from_slice(b"MLST");
    let mlst_len = u32::try_from(mlst.len()).expect("test MLST length fits u32");
    buf.extend_from_slice(&mlst_len.to_be_bytes());
    buf.extend_from_slice(&mlst);
    buf.extend_from_slice(b"END ");
    buf.extend_from_slice(&0u32.to_be_bytes());
    buf
}

#[test]
fn parse_minimal_pvo() {
    let data = build_minimal_pvo();
    let file = parse_pvo_file(&data).expect("should parse minimal PVO");
    assert_eq!(file.header.depth, 10);
    assert_eq!(file.header.total_nodes, 2);
    assert_eq!(file.header.leaf_nodes, 1);
    assert_eq!(file.header.mlst_polygon_count, 3);
    assert_eq!(file.header.reserved_18, 0);
    assert_eq!(file.header.cell_size, 16384);
    assert_eq!(file.header.center_x, 100);
    assert_eq!(file.header.center_y, -200);
    assert_eq!(file.header.center_z, 300);
    assert_eq!(file.header.reserved_2c, [0; 4]);
    assert_eq!(file.header.interior_nodes(), 1);
    assert_eq!(file.octr_nodes.len(), 2);
    let n0 = &file.octr_nodes[0];
    assert_eq!(n0.byte_offset, 0);
    assert_eq!(n0.child_mask, 0x01);
    assert!(n0.is_interior());
    assert!(!n0.is_leaf());
    assert_eq!(n0.child_count(), 1);
    assert_eq!(n0.child_refs, vec![(0, 9)]);
    assert_eq!(n0.record_size(), 9);
    let n1 = &file.octr_nodes[1];
    assert_eq!(n1.byte_offset, 9);
    assert_eq!(n1.child_mask, 0x00);
    assert!(!n1.is_interior());
    assert!(n1.is_leaf());
    assert_eq!(n1.child_count(), 0);
    assert!(n1.child_refs.is_empty());
    assert_eq!(n1.leaf_ref, 0);
    assert_eq!(n1.record_size(), 5);
    assert_eq!(file.plst_leaves.len(), 1);
    assert_eq!(file.plst_leaves[0].byte_offset, 0);
    assert_eq!(file.plst_leaves[0].entries.len(), 1);
    assert_eq!(file.plst_leaves[0].entries[0].count, 3);
    assert_eq!(file.plst_leaves[0].entries[0].mlst_start, 0);
    assert_eq!(file.mlst_indices, vec![10, 20, 30]);
}

#[test]
fn parse_rejects_bad_magic() {
    let mut data = build_minimal_pvo();
    data[0..4].copy_from_slice(b"NOPE");
    let err = parse_pvo_file(&data).expect_err("expected parse error");
    assert!(matches!(err, Error::Parse(_)));
}

#[test]
fn pvo_parse_rejects_too_small_file() {
    let data = vec![0u8; 8];
    let err = parse_pvo_file(&data).expect_err("expected parse error");
    assert!(matches!(err, Error::Parse(_)));
}

#[test]
fn parse_rejects_mismatched_node_count() {
    let mut data = build_minimal_pvo();
    let total_nodes_offset = 8 + 4;
    data[total_nodes_offset..total_nodes_offset + 4].copy_from_slice(&99u32.to_le_bytes());
    let err = parse_pvo_file(&data).expect_err("expected node count mismatch");
    assert!(matches!(err, Error::Parse(_)));
}

#[test]
fn parse_rejects_mismatched_mlst_count() {
    let mut data = build_minimal_pvo();
    let mlst_count_offset = 8 + 12;
    data[mlst_count_offset..mlst_count_offset + 4].copy_from_slice(&999u32.to_le_bytes());
    let err = parse_pvo_file(&data).expect_err("expected mlst count mismatch");
    assert!(matches!(err, Error::Parse(_)));
}

#[test]
fn octr_node_all_children() {
    let mut payload = Vec::new();
    payload.push(0xFF);
    payload.extend_from_slice(&42u32.to_le_bytes());
    for i in 0u32..8 {
        payload.extend_from_slice(&(i * 10).to_le_bytes());
    }
    let nodes = parse_octr_nodes(&payload, 1).expect("should parse");
    assert_eq!(nodes.len(), 1);
    assert_eq!(nodes[0].byte_offset, 0);
    assert_eq!(nodes[0].child_mask, 0xFF);
    assert_eq!(nodes[0].leaf_ref, 42);
    assert_eq!(nodes[0].child_count(), 8);
    assert_eq!(nodes[0].record_size(), 37);
    assert_eq!(
        nodes[0].child_refs,
        vec![(0, 0), (1, 10), (2, 20), (3, 30), (4, 40), (5, 50), (6, 60), (7, 70)]
    );
}

#[test]
fn pvo_counts_interior_and_leaf_nodes() {
    let data = build_minimal_pvo();
    let file = parse_pvo_file(&data).expect("should parse minimal PVO");
    assert_eq!(file.count_interior_nodes(), 1);
    assert_eq!(file.count_leaf_nodes(), 1);
    assert_eq!(
        file.count_interior_nodes() as u32,
        file.header.interior_nodes()
    );
}

#[test]
fn pvo_rejects_missing_end_section() {
    let mut data = build_minimal_pvo();
    let len = data.len();
    data[len - 8..len - 4].copy_from_slice(b"FINI");
    assert!(matches!(parse_pvo_file(&data), Err(Error::Parse(_))));
}

fn section(fill: u8) -> WldSection {
    WldSection {
        header: [0_u8; WLD_SECTION_HEADER_BYTES],
        maps: [[fill; WLD_MAP_BYTES], [0; WLD_MAP_BYTES], [0; WLD_MAP_BYTES], [0; WLD_MAP_BYTES]],
    }
}

#[test]
fn combine_map_stitches_sections_as_2x2_grid() {
    let file = WldFile {
        header: WldHeader { fields: [0; WLD_HEADER_DWORDS] },
        sections: [section(10), section(20), section(30), section(40)],
        footer: [0; WLD_FOOTER_BYTES],
    };
    let stitched = file.combined_map(0).expect("combined map");
    let side = WLD_MAP_SIDE * 2;
    assert_eq!(stitched.len(), side * side);
    assert_eq!(stitched[0], 10);
    assert_eq!(stitched[WLD_MAP_SIDE], 20);
    assert_eq!(stitched[WLD_MAP_SIDE * side], 30);
    assert_eq!(stitched[(WLD_MAP_SIDE * side) + WLD_MAP_SIDE], 40);
}

#[test]
fn wld_parse_rejects_too_small_file() {
    let bytes = vec![0_u8; 32];
    let err = parse_wld_file(&bytes).expect_err("expected parse error");
    assert!(matches!(err, Error::Parse(_)));
}

#[test]
fn combined_heightmap_strips_high_bit_without_scaling() {
    let mut section = WldSection {
        header: [0_u8; WLD_SECTION_HEADER_BYTES],
        maps: [[0; WLD_MAP_BYTES]; 4],
    };
    section.maps[0][0] = 0xFF;
    let file = WldFile {
        header: WldHeader { fields: [0; WLD_HEADER_DWORDS] },
        sections: [section.clone(), section.clone(), section.clone(), section],
        footer: [0; WLD_FOOTER_BYTES],
    };
    let luma = file.combined_heightmap_luma().expect("combined heightmap luma");
    assert_eq!(luma[0], 0x7F);
}

#[test]
fn combined_map_places_each_section_pixel_in_its_quadrant() {
    let mut sections = [section(0), section(0), section(0), section(0)];
    for (q, s) in sections.iter_mut().enumerate() {
        s.maps[2][5 * WLD_MAP_SIDE + 7] = 100 + q as u8;
    }
    let file = WldFile {
        header: WldHeader { fields: [0; WLD_HEADER_DWORDS] },
        sections,
        footer: [0; WLD_FOOTER_BYTES],
    };
    let stitched = file.combined_map(2).expect("combined map");
    let side = WLD_MAP_SIDE * 2;
    for q in 0..4usize {
        let row = (q / 2) * WLD_MAP_SIDE + 5;
        let col = (q % 2) * WLD_MAP_SIDE + 7;
        assert_eq!(stitched[row * side + col], 100 + q as u8);
    }
}

#[test]
fn combined_map_rejects_map_index_out_of_range() {
    let file = WldFile {
        header: WldHeader { fields: [0; WLD_HEADER_DWORDS] },
        sections: [section(1), section(2), section(3), section(4)],
        footer: [0; WLD_FOOTER_BYTES],
    };
    assert!(matches!(file.combined_map(4), Err(Error::Parse(_))));
}
