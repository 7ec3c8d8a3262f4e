use rgpre::import::rgm::metadata::{self, decode_ragr_command, parse_ragr_actor_groups};
use rgpre::import::rgm::script::{disassemble_actor_scripts, disassemble_script, extract_rtx_keys, format_soup_text};
use rgpre::import::soup_def::parse_soup_def;

fn pack_cmd_type0(opcode: u8, handle: i16, vertex: i16) -> [u8; 3] {
    let handle_u = (handle as u16) & 0x3FF;
    let vertex_u = (vertex as u16) & 0x3FF;
    let packed: u32 = (opcode as u32 & 0xF) | ((handle_u as u32) << 4) | ((vertex_u as u32) << 14);
    [packed as u8, (packed >> 8) as u8, (packed >> 16) as u8]
}

#[test]
fn ragr_command_decodes_vertex_and_handle_for_opcode_0() {
    let [b0, b1, b2] = pack_cmd_type0(0, 3, 47);
    let cmd = metadata::decode_ragr_command(b0, b1, b2);
    assert_eq!(cmd.opcode, 0);
    assert!(cmd.sets_attachment());
    assert_eq!(cmd.handle_index(), 3);
    assert_eq!(cmd.vertex_index(), 47);
}

#[test]
fn ragr_command_decodes_negative_vertex_index() {
    let [b0, b1, b2] = pack_cmd_type0(0, -1, -5);
    let cmd = metadata::decode_ragr_command(b0, b1, b2);
    assert_eq!(cmd.opcode, 0);
    assert_eq!(cmd.handle_index(), -1);
    assert_eq!(cmd.vertex_index(), -5);
}

#[test]
fn ragr_command_opcode_4_is_sound_trigger_not_attachment() {
    let [b0, b1, b2] = pack_cmd_type0(4, 0, 100);
    let cmd = metadata::decode_ragr_command(b0, b1, b2);
    assert_eq!(cmd.opcode, 4);
    assert!(!cmd.sets_attachment());
}

#[test]
fn ragr_command_opcode_6_does_not_set_attachment() {
    let cmd = metadata::decode_ragr_command(0x06, 0x00, 0x00);
    assert_eq!(cmd.opcode, 6);
    assert!(!cmd.sets_attachment());
}

#[test]
fn ragr_command_round_trips_extreme_parameters() {
    for (h, v) in [(-512i16, 511i16), (511, -512), (0, 0), (-2, 300)] {
        let [b0, b1, b2] = pack_cmd_type0(0, h, v);
        let cmd = decode_ragr_command(b0, b1, b2);
        assert_eq!(cmd.handle_index(), h);
        assert_eq!(cmd.vertex_index(), v);
    }
}

#[test]
fn ragr_groups_read_until_zero_size() {
    let mut data = Vec::new();
    data.extend_from_slice(&11u16.to_le_bytes());
    data.extend_from_slice(&7u16.to_le_bytes());
    data.extend_from_slice(&9u16.to_le_bytes());
    data.push(2);
    data.push(0);
    data.extend_from_slice(&1u16.to_le_bytes());
    data.extend_from_slice(&[0x10, 0x00, 0x00]);
    data.extend_from_slice(&0u16.to_le_bytes());
    let groups = parse_ragr_actor_groups(&data, 0);
    assert_eq!(groups.len(), 1);
    assert_eq!(groups[0].group_index, 7);
    assert_eq!(groups[0].anim_id, 9);
    assert_eq!(groups[0].flag, 2);
    assert_eq!(groups[0].frame_count, 1);
    assert_eq!(groups[0].commands.len(), 1);
    assert_eq!(groups[0].commands[0].opcode, 0);
}

#[test]
fn disassembles_simple_statements() {
    let mut code = vec![0x12u8, 0x13];
    code.push(0x04);
    code.extend_from_slice(&0x1234i32.to_le_bytes());
    let lines = disassemble_script(&code, 0, &[], None);
    let texts: Vec<&str> = lines.iter().map(|l| l.text.as_str()).collect();
    assert_eq!(texts, vec!["Return", "Endint", "Goto 1234"]);
    assert_eq!(lines[2].addr, 2);
    assert_eq!(lines[2].indent, 0);
}

#[test]
fn unknown_opcode_ends_listing_with_error_line() {
    let code = vec![0x12u8, 0x99, 0x12];
    let lines = disassemble_script(&code, 0, &[], None);
    assert_eq!(lines.len(), 2);
    assert_eq!(lines[1].text, "<error: unknown opcode 0x99>");
    assert_eq!(lines[1].addr, 2);
}

#[test]
fn script_pc_past_end_is_reported() {
    let lines = disassemble_script(&[0x12], 5, &[], None);
    assert_eq!(lines.len(), 1);
    assert_eq!(lines[0].text, "<error: script_pc 5 out of bounds>");
    assert_eq!(lines[0].addr, 1);
}

#[test]
fn if_block_nests_its_statements() {
    // if var0 = 5 { Return }
    let mut code = vec![0x03u8, 0x0A, 0x00, 0x00, 0x00, 0x07];
    code.extend_from_slice(&5i32.to_le_bytes());
    code.push(0x00);
    let end = (code.len() + 4 + 1) as i32;
    code.extend_from_slice(&end.to_le_bytes());
    code.push(0x12);
    let lines = disassemble_script(&code, 0, &[], None);
    assert_eq!(lines.len(), 2);
    assert_eq!(lines[0].text, "if var0 = 5");
    assert_eq!(lines[0].indent, 0);
    assert_eq!(lines[1].text, "Return");
    assert_eq!(lines[1].indent, 1);
}

#[test]
fn calls_use_definition_names_and_dialogue_keys() {
    let soup = parse_soup_def("[functions]\nfunc RTX parms 1\n");
    // call function 1 with one numeric parameter "AB12"
    let mut code = vec![0x00u8];
    code.extend_from_slice(&1u16.to_le_bytes());
    code.push(1);
    code.push(0x07);
    code.extend_from_slice(b"AB12");
    code.extend_from_slice(&[0, 0, 0, 0]);
    let lines = disassemble_script(&code, 0, &[], Some(&soup));
    assert_eq!(lines[0].text, "RTX(\"AB12\")");
    let keys = extract_rtx_keys(&lines[0].text);
    assert_eq!(keys, vec!["AB12".to_string()]);
}

#[test]
fn soup_text_has_header_and_hex_addresses() {
    let mut rahd = vec![0u8; 8 + 165];
    rahd[0..4].copy_from_slice(&1u32.to_le_bytes());
    let item = &mut rahd[8..];
    item[4..9].copy_from_slice(b"GUARD");
    item[0x4D..0x51].copy_from_slice(&2i32.to_le_bytes());
    let rasc = vec![0x12u8, 0x13];
    let scripts = disassemble_actor_scripts(&rahd, &rasc, &[], &[], &[], None);
    assert_eq!(scripts.len(), 1);
    assert_eq!(scripts[0].0, "GUARD");
    assert_eq!(scripts[0].1.instructions.len(), 2);
    let text = format_soup_text("GUARD", "ISLAND.RGM", &scripts[0].1, None);
    assert_eq!(text, "; SOUP script: GUARD\n; Source: ISLAND.RGM\n\n0000:\tReturn\n0001:\tEndint\n");
}

#[test]
fn soup_definitions_parse_sections() {
    let soup = parse_soup_def(
        "; comment\n[FUNCTIONS]\nf Walk parms 2\nf Bad\n[refs]\nobjA ; trailing\n[equates]\nauto\nStrength\nX = 3\nendauto\nauto\nIdle\nendauto\n[flags]\nint DoorOpen\n",
    );
    assert_eq!(soup.functions.len(), 2);
    assert_eq!(soup.functions[0].name, "NullFunction");
    assert_eq!(soup.functions[1].name, "Walk");
    assert_eq!(soup.functions[1].param_count, 2);
    assert_eq!(soup.references, vec!["objA".to_string()]);
    assert_eq!(soup.attributes, vec!["Strength".to_string()]);
    assert_eq!(soup.anim_groups, vec!["Idle".to_string()]);
    assert_eq!(soup.flags.len(), 1);
    assert_eq!(soup.flags[0].name, "DoorOpen");
    assert_eq!(soup.flags[0].flag_type, "int");
}
