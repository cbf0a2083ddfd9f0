use rwinreg::baseblock::BaseBlock;
use rwinreg::cell::Cell;
use rwinreg::cell::CellData;
use rwinreg::cell::CellSignature;
use rwinreg::errors::ErrorKind;
use rwinreg::errors::RegError;
use rwinreg::hivebin::HiveBin;
use rwinreg::hivebin::HiveBinHeader;
use rwinreg::nk::NodeKey;
use rwinreg::sk::SecurityKey;
use rwinreg::utils;
use rwinreg::vk::Data;
use rwinreg::vk::ValueKey;
use rwinreg::vk::VkDataType;

fn w16(b: &mut [u8], off: usize, v: u16) {
    b[off..off + 2].copy_from_slice(&v.to_le_bytes());
}

fn w32(b: &mut [u8], off: usize, v: u32) {
    b[off..off + 4].copy_from_slice(&v.to_le_bytes());
}

fn w64(b: &mut [u8], off: usize, v: u64) {
    b[off..off + 8].copy_from_slice(&v.to_le_bytes());
}

fn utf16le(s: &str) -> Vec<u8> {
    let mut out = Vec::new();
    for unit in s.encode_utf16() {
        out.extend_from_slice(&unit.to_le_bytes());
    }
    out
}

/// A 4096-byte base block with the fixture's field values.
fn baseblock_fixture() -> Vec<u8> {
    let mut b = vec![0u8; 4096];
    w32(&mut b, 0, 1718052210);
    w32(&mut b, 4, 2810);
    w32(&mut b, 8, 2809);
    w64(&mut b, 12, 130216723045201708);
    w32(&mut b, 20, 1);
    w32(&mut b, 24, 3);
    w32(&mut b, 28, 0);
    w32(&mut b, 32, 1);
    w32(&mut b, 36, 32);
    w32(&mut b, 40, 3563520);
    w32(&mut b, 44, 1);
    let name = utf16le("\\??\\C:\\Users\\Donald\\ntuser.dat");
    b[48..48 + name.len()].copy_from_slice(&name);
    w32(&mut b, 508, 1151707345);
    w32(&mut b, 4088, 0);
    w32(&mut b, 4092, 0);
    b
}

#[test]
fn baseblock() {
    let buffer_baseblock = baseblock_fixture();
    let baseblock = match BaseBlock::new(&buffer_baseblock, 0) {
        Ok(baseblock) => baseblock,
        Err(error) => panic!("{:?}", error),
    };

    assert_eq!(baseblock.signature, 1718052210);
    assert_eq!(baseblock.primary_seq_num, 2810);
    assert_eq!(baseblock.secondary_seq_num, 2809);
    assert_eq!(baseblock.last_written, 130216723045201708);
    assert_eq!(baseblock.major_version, 1);
    assert_eq!(baseblock.minor_version, 3);
    assert_eq!(baseblock.file_type, 0);
    assert_eq!(baseblock.file_format, 1);
    assert_eq!(baseblock.root_cell_offset, 32);
    assert_eq!(baseblock.hive_bins_data_size, 3563520);
    assert_eq!(baseblock.clustering_factor, 1);
    assert_eq!(baseblock.checksum, 1151707345);
    assert_eq!(baseblock.boot_type, 0);
    assert_eq!(baseblock.boot_recover, 0);
}

#[test]
fn baseblock_test_001() {
    let buffer = baseblock_fixture();
    let baseblock = BaseBlock::new(&buffer, 0).unwrap();

    assert_eq!(baseblock.signature, 1718052210);
    assert_eq!(baseblock.primary_seq_num, 2810);
    assert_eq!(baseblock.secondary_seq_num, 2809);
    assert_eq!(baseblock.last_written, 130216723045201708);
    assert_eq!(baseblock.major_version, 1);
    assert_eq!(baseblock.minor_version, 3);
    assert_eq!(baseblock.file_type, 0);
    assert_eq!(baseblock.file_format, 1);
    assert_eq!(baseblock.root_cell_offset, 32);
    assert_eq!(baseblock.hive_bins_data_size, 3563520);
    assert_eq!(baseblock.clustering_factor, 1);
    assert_eq!(baseblock.file_name, "\\??\\C:\\Users\\Donald\\ntuser.dat");
    assert_eq!(baseblock.checksum, 1151707345);
    assert_eq!(baseblock.boot_type, 0);
    assert_eq!(baseblock.boot_recover, 0);
}

#[test]
fn baseblock_rejects_bad_signature() {
    let mut buffer = baseblock_fixture();
    w32(&mut buffer, 0, 0x12345678);
    let err = match BaseBlock::new(&buffer, 0) {
        Ok(_) => panic!("base block with a wrong signature was accepted"),
        Err(e) => e,
    };
    assert_eq!(err.kind, ErrorKind::ValidationError);
}

/// The fixture's `vk` cell: a signed -40 size prefix and 36 payload bytes.
fn vk_cell_fixture() -> Vec<u8> {
    let mut cell = vec![0u8; 40];
    w32(&mut cell, 0, (-40i32) as u32);
    let known_data: &[u8] = &[
        0x76, 0x6B, 0x0A, 0x00, 0x54, 0x00, 0x00, 0x00, 0x80, 0x30, 0x00, 0x00, 0x01, 0x00,
        0x00, 0x00, 0x01, 0x00, 0x72, 0x65, 0x55, 0x73, 0x65, 0x72, 0x20, 0x41, 0x67, 0x65,
        0x6E, 0x74, 0x00, 0x00, 0x6C, 0x66, 0x01, 0x00,
    ];
    cell[4..40].copy_from_slice(known_data);
    cell
}

#[test]
fn cell() {
    let buffer = vk_cell_fixture();
    let cell = match Cell::new(&buffer) {
        Ok(cell) => cell,
        Err(error) => panic!("{:?}", error),
    };

    assert_eq!(cell.size, -40);
    assert_eq!(cell.get_signature().as_string(), String::from("vk"));

    let known_data: &[u8] = &[
        0x76, 0x6B, 0x0A, 0x00, 0x54, 0x00, 0x00, 0x00, 0x80, 0x30, 0x00, 0x00, 0x01, 0x00,
        0x00, 0x00, 0x01, 0x00, 0x72, 0x65, 0x55, 0x73, 0x65, 0x72, 0x20, 0x41, 0x67, 0x65,
        0x6E, 0x74, 0x00, 0x00, 0x6C, 0x66, 0x01, 0x00,
    ];
    assert_eq!(&cell.data[..], known_data);
}

#[test]
fn valuekey() {
    let buffer = vk_cell_fixture();
    let cell = Cell::new(&buffer).unwrap();
    let vk = match ValueKey::new(&cell.data, 4) {
        Ok(vk) => vk,
        Err(error) => panic!("{:?}", error),
    };

    assert_eq!(vk.signature, 27510);
    assert_eq!(vk.value_name_size, 10);
    assert_eq!(vk.data_size, 84);
    assert_eq!(vk.data_offset, 12416);
    assert_eq!(vk.data_type.as_string(), String::from("REG_SZ"));
    assert_eq!(vk.flags, 1);
    assert_eq!(vk.unknown1, 25970);
    assert_eq!(vk.value_name, String::from("User Agent"));

    let known_data: &[u8] = &[0x00, 0x00, 0x6C, 0x66, 0x01, 0x00];
    assert_eq!(&vk.padding[..], known_data);
}

/// The fixture's `nk` cell: a signed -144 size prefix and 140 payload bytes.
fn nk_cell_fixture() -> Vec<u8> {
    let mut cell = vec![0u8; 144];
    w32(&mut cell, 0, (-144i32) as u32);
    let p = &mut cell[4..];
    w16(p, 0, 27502);
    w16(p, 2, 44);
    w64(p, 4, 130269705849853298);
    w32(p, 12, 2);
    w32(p, 16, 1928);
    w32(p, 20, 13);
    w32(p, 24, 1);
    w32(p, 28, 2587704);
    w32(p, 32, 2147484264);
    w32(p, 36, 0);
    w32(p, 40, 4294967295);
    w32(p, 44, 7568);
    w32(p, 48, 4294967295);
    w32(p, 52, 42);
    w32(p, 56, 0);
    w32(p, 60, 0);
    w32(p, 64, 0);
    w32(p, 68, 3342392);
    w16(p, 72, 57);
    w16(p, 74, 0);
    let name = b"CsiTool-CreateHive-{00000000-0000-0000-0000-000000000000}";
    p[76..76 + 57].copy_from_slice(&name[..57]);
    let padding: &[u8] = &[0x00, 0x39, 0x00, 0x31, 0x00, 0x45, 0x00];
    p[133..140].copy_from_slice(padding);
    cell
}

#[test]
fn nodekey() {
    let buffer = nk_cell_fixture();
    let cell = Cell::new(&buffer).unwrap();
    let nk = match NodeKey::new(&cell.data, 4) {
        Ok(nk) => nk,
        Err(error) => panic!("{:?}", error),
    };

    assert_eq!(nk.signature, 27502);
    assert_eq!(nk.flags, 44);
    assert_eq!(nk.last_written, 130269705849853298);
    assert_eq!(nk.access_bits, 2);
    assert_eq!(nk.offset_parent_key, 1928);
    assert_eq!(nk.num_sub_keys, 13);
    assert_eq!(nk.num_volatile_sub_keys, 1);
    assert_eq!(nk.offset_sub_key_list, 2587704);
    assert_eq!(nk.offset_volatile_sub_key_list, 2147484264);
    assert_eq!(nk.num_values, 0);
    assert_eq!(nk.offset_value_list, 4294967295);
    assert_eq!(nk.offset_security_key, 7568);
    assert_eq!(nk.offset_class_name, 4294967295);
    assert_eq!(nk.largest_sub_key_name_size, 42);
    assert_eq!(nk.largest_sub_key_class_name_size, 0);
    assert_eq!(nk.largest_value_name_size, 0);
    assert_eq!(nk.largest_value_data_size, 0);
    assert_eq!(nk.work_var, 3342392);
    assert_eq!(nk.key_name_size, 57);
    assert_eq!(nk.class_name_size, 0);
    assert_eq!(
        nk.key_name,
        String::from("CsiTool-CreateHive-{00000000-0000-0000-0000-000000000000}")
    );

    let known_data: &[u8] = &[0x00, 0x39, 0x00, 0x31, 0x00, 0x45, 0x00];
    assert_eq!(&nk.padding[..], known_data);
}

#[test]
fn hivebin_cell_nk_001() {
    let buffer = nk_cell_fixture();
    let cell = Cell::new(&buffer).unwrap();

    assert_eq!(cell.size, -144);
    let signature = cell.get_signature();
    assert_eq!(signature.as_u16(), 27502);
    match cell.get_data().unwrap() {
        CellData::NodeKey(data) => {
            assert_eq!(data.flags, 44);
            assert_eq!(data.last_written, 130269705849853298);
            assert_eq!(data.access_bits, 2);
            assert_eq!(data.offset_parent_key, 1928);
            assert_eq!(data.num_sub_keys, 13);
            assert_eq!(data.num_volatile_sub_keys, 1);
            assert_eq!(data.offset_sub_key_list, 2587704);
            assert_eq!(data.offset_volatile_sub_key_list, 2147484264);
            assert_eq!(data.num_values, 0);
            assert_eq!(data.offset_value_list, 4294967295);
            assert_eq!(data.offset_security_key, 7568);
            assert_eq!(data.offset_class_name, 4294967295);
            assert_eq!(data.largest_sub_key_name_size, 42);
            assert_eq!(data.largest_sub_key_class_name_size, 0);
            assert_eq!(data.largest_value_name_size, 0);
            assert_eq!(data.largest_value_data_size, 0);
            assert_eq!(data.work_var, 3342392);
            assert_eq!(data.key_name_size, 57);
            assert_eq!(data.class_name_size, 0);
            assert_eq!(
                data.key_name,
                "CsiTool-CreateHive-{00000000-0000-0000-0000-000000000000}"
            );
        },
        _ => panic!("Cell signature incorrect: {}", signature.as_u16()),
    }
}

/// A 32-byte hive-bin header with the fixture's field values.
fn hivebin_header_fixture() -> Vec<u8> {
    let mut b = vec![0u8; 32];
    w32(&mut b, 0, 1852400232);
    w32(&mut b, 4, 0);
    w32(&mut b, 8, 4096);
    w64(&mut b, 12, 0);
    w64(&mut b, 20, 130216723045201708);
    w32(&mut b, 28, 0);
    b
}

#[test]
fn hivebin_header_test_001() {
    let buffer = hivebin_header_fixture();
    let hb_header = HiveBinHeader::new(&buffer, 0).unwrap();

    assert_eq!(hb_header.signature, 1852400232);
    assert_eq!(hb_header.hb_offset, 0);
    assert_eq!(hb_header.size, 4096);
    assert_eq!(hb_header.reserved1, 0);
    assert_eq!(hb_header.timestamp, 130216723045201708);
    assert_eq!(hb_header.spare, 0);
}

#[test]
fn hivebin_rejects_bad_signature() {
    let mut buffer = hivebin_header_fixture();
    w32(&mut buffer, 0, 1);
    let err = HiveBinHeader::new(&buffer, 0).unwrap_err();
    assert_eq!(err.kind, ErrorKind::ValidationError);
}

#[test]
fn hivebin_rejects_unaligned_size() {
    let mut buffer = hivebin_header_fixture();
    w32(&mut buffer, 8, 4100);
    let err = HiveBinHeader::new(&buffer, 0).unwrap_err();
    assert_eq!(err.kind, ErrorKind::ValidationError);
}

#[test]
fn hivebin_enumerates_cells() {
    let mut bin = vec![0u8; 4096];
    bin[..32].copy_from_slice(&hivebin_header_fixture());
    // first cell: allocated, 16 bytes, unknown signature
    w32(&mut bin, 32, (-16i32) as u32);
    bin[36] = 0x41;
    bin[37] = 0x42;
    // second cell: free, covers the rest of the bin
    w32(&mut bin, 48, 4048);
    let hb = HiveBin::new(&bin, 0).unwrap();
    assert_eq!(hb.get_size(), 4096);
    assert_eq!(hb.cells.len(), 2);
    assert_eq!(hb.cells[0].size, -16);
    assert_eq!(hb.cells[1].size, 4048);
}

#[test]
fn cell_rejects_zero_size() {
    let buffer = vec![0u8; 64];
    let err = Cell::at_offset(&buffer, 0).unwrap_err();
    assert_eq!(err.kind, ErrorKind::ValidationError);
}

#[test]
fn cell_rejects_unaligned_size() {
    let mut buffer = vec![0u8; 64];
    w32(&mut buffer, 0, (-12i32) as u32);
    let err = Cell::at_offset(&buffer, 0).unwrap_err();
    assert_eq!(err.kind, ErrorKind::ValidationError);
}

#[test]
fn cell_rejects_out_of_range() {
    let mut buffer = vec![0u8; 16];
    w32(&mut buffer, 0, (-64i32) as u32);
    let err = Cell::at_offset(&buffer, 0).unwrap_err();
    assert_eq!(err.kind, ErrorKind::ValidationError);
}

/// A security descriptor with one owner and one group SID and no ACLs.
fn descriptor_fixture() -> Vec<u8> {
    let mut d = vec![0u8; 160];
    d[0] = 1;
    w16(&mut d, 2, 0x8000);
    w32(&mut d, 4, 20);
    w32(&mut d, 8, 32);
    w32(&mut d, 12, 0);
    w32(&mut d, 16, 0);
    let sid: &[u8] = &[0x01, 0x01, 0x00, 0x00, 0x00, 0x00, 0x00, 0x05, 0x12, 0x00, 0x00, 0x00];
    d[20..32].copy_from_slice(sid);
    d[32..44].copy_from_slice(sid);
    d
}

/// The fixture's `sk` cell payload: envelope plus descriptor.
fn sk_payload_fixture() -> Vec<u8> {
    let mut p = vec![0u8; 180];
    w16(&mut p, 0, 27507);
    w16(&mut p, 2, 0);
    w32(&mut p, 4, 1876000);
    w32(&mut p, 8, 7568);
    w32(&mut p, 12, 84);
    w32(&mut p, 16, 160);
    let d = descriptor_fixture();
    p[20..180].copy_from_slice(&d);
    p
}

#[test]
fn securitykey() {
    let payload = sk_payload_fixture();
    let sk = match SecurityKey::new(&payload, 4) {
        Ok(sk) => sk,
        Err(error) => panic!("{:?}", error),
    };

    assert_eq!(sk.signature, 27507);
    assert_eq!(sk.unknown1, 0);
    assert_eq!(sk.previous_sec_key_offset, 1876000);
    assert_eq!(sk.next_sec_key_offset, 7568);
    assert_eq!(sk.reference_count, 84);
    assert_eq!(sk.descriptor_size, 160);
}

#[test]
fn securitykey_descriptor_error() {
    let mut payload = sk_payload_fixture();
    // point the owner SID past the end of the descriptor bytes
    w32(&mut payload, 24, 10000);
    let err = SecurityKey::new(&payload, 4).unwrap_err();
    assert_eq!(err.kind, ErrorKind::SecDescParseError);
}

#[test]
fn securitykey_unknown_ace_type() {
    let mut payload = sk_payload_fixture();
    // attach a DACL at descriptor offset 44 holding one ACE of unknown type
    w32(&mut payload, 36, 44);
    let acl_at = 20 + 44;
    payload[acl_at] = 2;
    w16(&mut payload, acl_at + 2, 16);
    w16(&mut payload, acl_at + 4, 1);
    payload[acl_at + 8] = 0xFF;
    w16(&mut payload, acl_at + 10, 8);
    let err = SecurityKey::new(&payload, 4).unwrap_err();
    assert_eq!(err.kind, ErrorKind::UnknownAceType);
}

#[test]
fn securitykey_rejects_undersized_ace() {
    let mut payload = sk_payload_fixture();
    // attach a DACL at descriptor offset 44 holding one ACE whose stored
    // size is below the 4 header bytes it must cover
    w32(&mut payload, 36, 44);
    let acl_at = 20 + 44;
    payload[acl_at] = 2;
    w16(&mut payload, acl_at + 2, 16);
    w16(&mut payload, acl_at + 4, 1);
    payload[acl_at + 8] = 0x00;
    w16(&mut payload, acl_at + 10, 2);
    let err = SecurityKey::new(&payload, 4).unwrap_err();
    assert_eq!(err.kind, ErrorKind::SecDescParseError);
}

#[test]
fn inline_dword_decodes_to_stored_offset() {
    let mut p = vec![0u8; 28];
    w16(&mut p, 0, 27510);
    w16(&mut p, 2, 1);
    w32(&mut p, 4, 0x80000004);
    w32(&mut p, 8, 0x12345678);
    w32(&mut p, 12, 4);
    w16(&mut p, 16, 1);
    p[20] = b'D';
    let mut vk = ValueKey::new(&p, 0).unwrap();
    let hive = vec![0u8; 4096];
    assert!(vk.read_value(&hive).unwrap());
    assert_eq!(&vk.data[..], &[0x78, 0x56, 0x34, 0x12]);
    match vk.decode_data().unwrap() {
        Some(Data::Int32(v)) => assert_eq!(v, 0x12345678),
        other => panic!("unexpected datum: {:?}", other),
    }
}

#[test]
fn decode_rejects_size_beyond_data() {
    let mut p = vec![0u8; 28];
    w16(&mut p, 0, 27510);
    w16(&mut p, 2, 1);
    w32(&mut p, 4, 0x80000002);
    w32(&mut p, 8, 0x4142);
    w32(&mut p, 12, 3);
    w16(&mut p, 16, 1);
    p[20] = b'B';
    let mut vk = ValueKey::new(&p, 0).unwrap();
    let hive = vec![0u8; 4096];
    vk.read_value(&hive).unwrap();
    // force a stored size larger than the resolved bytes
    vk.data_size = 8;
    let err = vk.decode_data().unwrap_err();
    assert_eq!(err.kind, ErrorKind::ValidationError);
}

#[test]
fn cellsignature_names() {
    assert_eq!(CellSignature::new(26220).as_string(), "lf");
    assert_eq!(CellSignature::new(26732).as_string(), "lh");
    assert_eq!(CellSignature::new(26988).as_string(), "li");
    assert_eq!(CellSignature::new(26994).as_string(), "ri");
    assert_eq!(CellSignature::new(27502).as_string(), "nk");
    assert_eq!(CellSignature::new(27507).as_string(), "sk");
    assert_eq!(CellSignature::new(27510).as_string(), "vk");
    assert_eq!(CellSignature::new(25188).as_string(), "db");
    assert_eq!(CellSignature::new(0x1234).as_string(), "0x1234");
    assert_eq!(CellSignature::new(0xABCD).as_u16(), 0xABCD);
}

#[test]
fn vkdatatype_names() {
    assert_eq!(VkDataType::new(0).as_string(), "REG_NONE");
    assert_eq!(VkDataType::new(1).as_string(), "REG_SZ");
    assert_eq!(VkDataType::new(2).as_string(), "REG_EXPAND_SZ");
    assert_eq!(VkDataType::new(3).as_string(), "REG_BINARY");
    assert_eq!(VkDataType::new(4).as_string(), "REG_DWORD_LITTLE_ENDIAN");
    assert_eq!(VkDataType::new(5).as_string(), "REG_DWORD_BIG_ENDIAN");
    assert_eq!(VkDataType::new(6).as_string(), "REG_LINK");
    assert_eq!(VkDataType::new(7).as_string(), "REG_MULTI_SZ");
    assert_eq!(VkDataType::new(8).as_string(), "REG_RESOURCE_LIST");
    assert_eq!(VkDataType::new(9).as_string(), "REG_FULL_RESOURCE_DESCRIPTOR");
    assert_eq!(VkDataType::new(10).as_string(), "REG_RESOURCE_REQUIREMENTS_LIST");
    assert_eq!(VkDataType::new(11).as_string(), "REG_QWORD_LITTLE_ENDIAN");
    assert_eq!(VkDataType::new(12).as_string(), "REG_TYPE: 0x0000000C");
    assert_eq!(VkDataType::new(7).as_u32(), 7);
}

#[test]
fn to_hex_string_renders_uppercase() {
    assert_eq!(utils::to_hex_string(&[0xDE, 0xAD, 0xBE, 0xEF]), "DEADBEEF");
    assert_eq!(utils::to_hex_string(&[]), "");
    assert_eq!(utils::to_hex_string(&[0x00, 0x0A]), "000A");
}

#[test]
fn read_ascii_drops_non_ascii_and_null() {
    assert_eq!(utils::read_ascii(b"AB\x80C\x00").unwrap(), "ABC");
    assert_eq!(utils::read_ascii(b"").unwrap(), "");
}

#[test]
fn read_utf16_strips_one_terminator() {
    let bytes = [b'H', 0, b'i', 0, 0, 0];
    assert_eq!(utils::read_utf16(&bytes).unwrap(), "Hi");
    let no_null = [b'H', 0, b'i', 0];
    assert_eq!(utils::read_utf16(&no_null).unwrap(), "Hi");
}

#[test]
fn read_string_stops_at_null_pair() {
    let mut bytes = vec![0u8; 12];
    bytes[0] = b'O';
    bytes[2] = b'k';
    // bytes 4..6 are the null pair; what follows is ignored
    bytes[6] = b'X';
    assert_eq!(utils::read_string_u16_till_null(&bytes).unwrap(), "Ok");
}

#[test]
fn reg_error_constructors_tag_kinds() {
    assert_eq!(
        RegError::utf16_decode_error(String::from("a")).kind,
        ErrorKind::Utf16Error
    );
    assert_eq!(
        RegError::ascii_decode_error(String::from("b")).kind,
        ErrorKind::AsciiError
    );
    let e = RegError::validation_error(String::from("boom"));
    assert_eq!(e.kind, ErrorKind::ValidationError);
    assert_eq!(e.describe(), "ValidationError: boom");
}

#[test]
fn raw_data_carries_the_payload_unparsed() {
    let buffer = vk_cell_fixture();
    let cell = Cell::new(&buffer).unwrap();
    match cell.get_raw_data() {
        CellData::Raw(bytes) => assert_eq!(bytes, cell.data),
        other => panic!("expected raw bytes, got {:?}", other),
    }
}
