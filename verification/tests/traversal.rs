use rwinreg::hive::Hive;
use rwinreg::hivebin::HiveBin;
use rwinreg::lf::FastLeaf;
use rwinreg::lh::HashLeaf;
use rwinreg::li::IndexLeaf;
use rwinreg::nk::NodeKey;
use rwinreg::ri::RootIndex;
use rwinreg::vk::Data;
use rwinreg::vk::ValueKey;
use rwinreg::vk::ValueKeyList;

fn w16(b: &mut [u8], off: usize, v: u16) {
    b[off..off + 2].copy_from_slice(&v.to_le_bytes());
}

fn w32(b: &mut [u8], off: usize, v: u32) {
    b[off..off + 4].copy_from_slice(&v.to_le_bytes());
}

fn w64(b: &mut [u8], off: usize, v: u64) {
    b[off..off + 8].copy_from_slice(&v.to_le_bytes());
}

/// Write an allocated cell with the given payload at hive-relative `rel`.
fn put_cell(h: &mut [u8], rel: usize, payload: &[u8]) {
    let size = (payload.len() + 4) as i32;
    assert!(size % 8 == 0, "cell sizes must be multiples of 8");
    w32(h, 4096 + rel, (-size) as u32);
    h[4096 + rel + 4..4096 + rel + 4 + payload.len()].copy_from_slice(payload);
}

/// A node-key payload with an ASCII name and the given counts and offsets.
fn nk_payload(
    nsub: u32,
    osub: u32,
    nval: u32,
    oval: u32,
    osec: u32,
    name: &[u8],
    total: usize,
) -> Vec<u8> {
    let mut p = vec![0u8; total];
    w16(&mut p, 0, 27502);
    w16(&mut p, 2, 0x002C);
    w64(&mut p, 4, 130216723045201708);
    w32(&mut p, 20, nsub);
    w32(&mut p, 28, osub);
    w32(&mut p, 32, 0xFFFFFFFF);
    w32(&mut p, 36, nval);
    w32(&mut p, 40, oval);
    w32(&mut p, 44, osec);
    w32(&mut p, 48, 0xFFFFFFFF);
    w16(&mut p, 72, name.len() as u16);
    p[76..76 + name.len()].copy_from_slice(name);
    p
}

/// A value-key payload. An ASCII name when `ascii_name` is set, else the
/// name bytes are taken as stored (UTF-16LE).
fn vk_payload(
    ascii_name: bool,
    data_size: u32,
    data_offset: u32,
    ty: u32,
    name: &[u8],
    total: usize,
) -> Vec<u8> {
    let mut p = vec![0u8; total];
    w16(&mut p, 0, 27510);
    w16(&mut p, 2, name.len() as u16);
    w32(&mut p, 4, data_size);
    w32(&mut p, 8, data_offset);
    w32(&mut p, 12, ty);
    w16(&mut p, 16, if ascii_name { 1 } else { 0 });
    p[20..20 + name.len()].copy_from_slice(name);
    p
}

/// A security-key payload whose descriptor holds two SIDs and no ACLs.
fn sk_payload() -> Vec<u8> {
    let mut p = vec![0u8; 180];
    w16(&mut p, 0, 27507);
    w32(&mut p, 4, 1876000);
    w32(&mut p, 8, 7568);
    w32(&mut p, 12, 84);
    w32(&mut p, 16, 160);
    p[20] = 1;
    w16(&mut p, 22, 0x8000);
    w32(&mut p, 24, 20);
    w32(&mut p, 28, 32);
    let sid: &[u8] = &[0x01, 0x01, 0x00, 0x00, 0x00, 0x00, 0x00, 0x05, 0x12, 0x00, 0x00, 0x00];
    p[40..52].copy_from_slice(sid);
    p[52..64].copy_from_slice(sid);
    p
}

/// A small hive: a root key `ROOT` with two values (an inline dword and a
/// referenced string), a subkey `Sub` with one binary value and a security
/// key, and an empty subkey `Empty`.
fn build_hive() -> Vec<u8> {
    let mut h = vec![0u8; 8192];
    // base block
    w32(&mut h, 0, 0x66676572);
    w32(&mut h, 4, 7);
    w32(&mut h, 8, 7);
    w64(&mut h, 12, 130216723045201708);
    w32(&mut h, 20, 1);
    w32(&mut h, 24, 3);
    w32(&mut h, 32, 1);
    w32(&mut h, 36, 32);
    w32(&mut h, 40, 4096);
    w32(&mut h, 44, 1);
    // hive bin header
    w32(&mut h, 4096, 0x6E696268);
    w32(&mut h, 4100, 0);
    w32(&mut h, 4104, 4096);
    w64(&mut h, 4116, 130216723045201708);
    // root node: 2 values at rel 784, 2 subkeys at rel 176
    put_cell(&mut h, 32, &nk_payload(2, 176, 2, 784, 0xFFFFFFFF, b"ROOT", 140));
    // subkey fast leaf: Sub at rel 208, Empty at rel 376
    let mut lf = vec![0u8; 28];
    w16(&mut lf, 0, 26220);
    w16(&mut lf, 2, 2);
    w32(&mut lf, 4, 208);
    lf[8..12].copy_from_slice(b"Sub\0");
    w32(&mut lf, 12, 376);
    lf[16..20].copy_from_slice(b"Empt");
    put_cell(&mut h, 176, &lf);
    // root value list: the inline dword, then the referenced string
    let mut vl = vec![0u8; 12];
    w32(&mut vl, 0, 472);
    w32(&mut vl, 4, 520);
    put_cell(&mut h, 784, &vl);
    // subkey Sub: 1 value at rel 304, security key at rel 600
    put_cell(&mut h, 208, &nk_payload(0, 0xFFFFFFFF, 1, 304, 600, b"Sub", 92));
    // Sub's value list
    let mut vl2 = vec![0u8; 4];
    w32(&mut vl2, 0, 312);
    put_cell(&mut h, 304, &vl2);
    // Sub's binary value, referencing the raw cell at rel 360
    put_cell(&mut h, 312, &vk_payload(true, 4, 360, 3, b"Bin", 44));
    let mut bin = vec![0u8; 12];
    bin[0] = 0xDE;
    bin[1] = 0xAD;
    bin[2] = 0xBE;
    bin[3] = 0xEF;
    put_cell(&mut h, 360, &bin);
    // subkey Empty: no values, no subkeys
    put_cell(&mut h, 376, &nk_payload(0, 0xFFFFFFFF, 0, 0xFFFFFFFF, 0xFFFFFFFF, b"Empty", 92));
    // root's inline dword value
    put_cell(&mut h, 472, &vk_payload(true, 0x80000004, 0x12345678, 4, b"Dword", 44));
    // root's referenced string value, data at rel 568
    let name_utf16: &[u8] = &[b'S', 0, b't', 0, b'r', 0];
    put_cell(&mut h, 520, &vk_payload(false, 12, 568, 1, name_utf16, 44));
    let mut sdata = vec![0u8; 20];
    let hello: &[u8] = &[b'H', 0, b'e', 0, b'l', 0, b'l', 0, b'o', 0, 0, 0];
    sdata[..12].copy_from_slice(hello);
    put_cell(&mut h, 568, &sdata);
    // shared security key
    put_cell(&mut h, 600, &sk_payload());
    h
}

fn datum_string(d: &Option<Data>) -> String {
    match d {
        None => String::from("<none>"),
        Some(Data::Empty) => String::from("<empty>"),
        Some(Data::String(s)) => s.clone(),
        Some(Data::Int32(v)) => format!("{}", v),
    }
}

fn collect_records(hive: &mut Hive) -> Vec<(String, String)> {
    let mut out = Vec::new();
    loop {
        match hive.get_next_value() {
            Ok(Some(rec)) => {
                let datum = rec.valuekey.decode_data().unwrap();
                out.push((rec.fullpath.clone(), datum_string(&datum)));
            },
            Ok(None) => break,
            Err(e) => panic!("{:?}", e),
        }
    }
    out
}

#[test]
fn full_iteration_emits_every_value_in_order() {
    let bytes = build_hive();
    let mut hive = Hive::from_source(bytes).unwrap();
    let records = collect_records(&mut hive);
    // one record per value: the sum of num_values over all reachable nodes
    assert_eq!(records.len(), 3);
    assert_eq!(records[0].0, "\\ROOT\\Dword");
    assert_eq!(records[0].1, format!("{}", 0x12345678));
    assert_eq!(records[1].0, "\\ROOT\\Str");
    assert_eq!(records[1].1, "Hello");
    assert_eq!(records[2].0, "\\ROOT\\Sub\\Bin");
    assert_eq!(records[2].1, "DEADBEEF");
    // the iterator stays exhausted
    assert!(hive.get_next_value().unwrap().is_none());
}

#[test]
fn security_descriptor_reaches_the_record() {
    let bytes = build_hive();
    let mut hive = Hive::from_source(bytes).unwrap();
    let mut seen_with_security = 0;
    loop {
        match hive.get_next_value().unwrap() {
            Some(rec) => {
                if rec.fullpath == "\\ROOT\\Sub\\Bin" {
                    assert!(rec.security.is_some());
                    seen_with_security += 1;
                } else {
                    assert!(rec.security.is_none());
                }
            },
            None => break,
        }
    }
    assert_eq!(seen_with_security, 1);
}

#[test]
fn iterating_two_handles_yields_identical_sequences() {
    let bytes = build_hive();
    let mut first = Hive::from_source(bytes.clone()).unwrap();
    let mut second = Hive::from_source(bytes).unwrap();
    let a = collect_records(&mut first);
    let b = collect_records(&mut second);
    assert_eq!(a, b);
}

#[test]
fn root_node_is_read_at_the_reported_offset() {
    let bytes = build_hive();
    let mut hive = Hive::from_source(bytes).unwrap();
    let root = hive.get_root_node().unwrap();
    assert_eq!(root.key_name().as_str(), "ROOT");
    assert_eq!(root.num_sub_keys, 2);
    assert_eq!(root.num_values, 2);
}

#[test]
fn node_without_value_list_yields_no_values() {
    let bytes = build_hive();
    let mut nk = NodeKey::new(
        &nk_payload(0, 0xFFFFFFFF, 0, 0xFFFFFFFF, 0xFFFFFFFF, b"Leaf", 92),
        0,
    )
    .unwrap();
    assert!(nk.get_next_value(&bytes).unwrap().is_none());
    assert!(nk.get_next_value(&bytes).unwrap().is_none());
}

#[test]
fn node_without_subkey_list_is_a_leaf() {
    let bytes = build_hive();
    let mut nk = NodeKey::new(
        &nk_payload(0, 0xFFFFFFFF, 0, 0xFFFFFFFF, 0xFFFFFFFF, b"Leaf", 92),
        0,
    )
    .unwrap();
    assert!(nk.get_next_key(&bytes).unwrap().is_none());
    assert!(nk.get_next_key(&bytes).unwrap().is_none());
}

#[test]
fn root_index_over_empty_subleaves_yields_no_children() {
    let mut bytes = vec![0u8; 4200];
    // two empty fast leaves
    let mut lf = vec![0u8; 4];
    w16(&mut lf, 0, 26220);
    w16(&mut lf, 2, 0);
    put_cell(&mut bytes, 32, &lf);
    put_cell(&mut bytes, 40, &lf);
    // a root index pointing at both
    let mut rip = vec![0u8; 12];
    w16(&mut rip, 0, 26994);
    w16(&mut rip, 2, 2);
    w32(&mut rip, 4, 32);
    w32(&mut rip, 8, 40);
    let mut ri = RootIndex::new(&rip, 0).unwrap();
    assert!(ri.get_next_key(&bytes).unwrap().is_none());
    assert!(ri.get_next_key(&bytes).unwrap().is_none());
}

#[test]
fn value_list_skips_zero_entries_without_terminating() {
    let bytes = build_hive();
    let mut list_bytes = vec![0u8; 12];
    w32(&mut list_bytes, 0, 472);
    w32(&mut list_bytes, 4, 0);
    w32(&mut list_bytes, 8, 520);
    let mut list = ValueKeyList::new(&list_bytes, 3, 0).unwrap();
    let first = list.get_next_value(&bytes).unwrap().unwrap();
    assert_eq!(first.get_name(), "Dword");
    let second = list.get_next_value(&bytes).unwrap().unwrap();
    assert_eq!(second.get_name(), "Str");
    assert!(list.get_next_value(&bytes).unwrap().is_none());
}

#[test]
fn single_segment_big_data_matches_direct_reference() {
    let mut bytes = vec![0u8; 4300];
    // the segment cell: 12 raw payload bytes
    let seg: &[u8] = b"HelloWorld1\0";
    put_cell(&mut bytes, 32, seg);
    // the segment list: one entry pointing at the segment cell
    let mut list = vec![0u8; 4];
    w32(&mut list, 0, 32);
    put_cell(&mut bytes, 48, &list);
    // the big-data header: one segment, list at rel 48
    let mut dbp = vec![0u8; 12];
    w16(&mut dbp, 0, 25188);
    w16(&mut dbp, 2, 1);
    w32(&mut dbp, 4, 48);
    put_cell(&mut bytes, 56, &dbp);
    // one value through the big-data chain, one direct
    let mut via_db = ValueKey::new(&vk_payload(true, 12, 56, 3, b"D", 28), 0).unwrap();
    let mut direct = ValueKey::new(&vk_payload(true, 12, 32, 3, b"R", 28), 0).unwrap();
    assert!(via_db.read_value(&bytes).unwrap());
    assert!(direct.read_value(&bytes).unwrap());
    assert_eq!(via_db.data, direct.data);
    assert_eq!(&via_db.data[..], seg);
}

#[test]
fn hash_leaf_and_index_leaf_walk_their_entries() {
    let mut bytes = vec![0u8; 4300];
    put_cell(&mut bytes, 32, &nk_payload(0, 0xFFFFFFFF, 0, 0xFFFFFFFF, 0xFFFFFFFF, b"Leaf", 92));
    // a hash leaf with one entry pointing at the node
    let mut lhp = vec![0u8; 12];
    w16(&mut lhp, 0, 26732);
    w16(&mut lhp, 2, 1);
    w32(&mut lhp, 4, 32);
    w32(&mut lhp, 8, 0xCAFEBABE);
    let mut lh = HashLeaf::new(&lhp, 0).unwrap();
    let child = lh.get_next_key(&bytes).unwrap().unwrap();
    assert_eq!(child.key_name().as_str(), "Leaf");
    assert!(lh.get_next_key(&bytes).unwrap().is_none());
    assert!(lh.get_next_key(&bytes).unwrap().is_none());
    // an index leaf with one bare entry pointing at the node
    let mut lip = vec![0u8; 8];
    w16(&mut lip, 0, 26988);
    w16(&mut lip, 2, 1);
    w32(&mut lip, 4, 32);
    let mut li = IndexLeaf::new(&lip, 0).unwrap();
    let child2 = li.get_next_key(&bytes).unwrap().unwrap();
    assert_eq!(child2.key_name().as_str(), "Leaf");
    assert!(li.get_next_key(&bytes).unwrap().is_none());
    // the element getters expose the stored child offsets
    assert_eq!(*lh.elements[0].get_offset(), 32);
    let mut lfp = vec![0u8; 12];
    w16(&mut lfp, 0, 26220);
    w16(&mut lfp, 2, 1);
    w32(&mut lfp, 4, 32);
    lfp[8..12].copy_from_slice(b"Leaf");
    let lf = FastLeaf::new(&lfp, 0).unwrap();
    assert_eq!(*lf.elements[0].get_offset(), 32);
    assert_eq!(lf.elements[0].1, "Leaf");
}

#[test]
fn hivebin_next_advances_by_the_bin_size() {
    let mut bytes = vec![0u8; 12288];
    for base in [4096usize, 8192usize] {
        w32(&mut bytes, base, 0x6E696268);
        w32(&mut bytes, base + 4, (base - 4096) as u32);
        w32(&mut bytes, base + 8, 4096);
        // one free cell covering the whole cells region
        w32(&mut bytes, base + 32, 4064);
    }
    let first = HiveBin::new(&bytes, 4096).unwrap();
    assert_eq!(first.get_size(), 4096);
    assert_eq!(first.cells.len(), 1);
    let second = first.next(&bytes).unwrap();
    assert_eq!(second.header.hb_offset, 4096);
    assert_eq!(second.cells.len(), 1);
    // a third bin would start past the end of the bytes
    assert!(second.next(&bytes).is_err());
}

#[test]
fn signature_sniff_accepts_only_regf() {
    let bytes = build_hive();
    assert!(rwinreg::hive::has_hive_signature(&bytes));
    assert!(rwinreg::hive::has_hive_signature(&bytes[..4]));
    assert!(!rwinreg::hive::has_hive_signature(&bytes[..3]));
    assert!(!rwinreg::hive::has_hive_signature(&bytes[1..5]));
}

#[test]
fn root_index_walks_subleaves_in_order() {
    let mut bytes = vec![0u8; 4400];
    // two nodes the subleaves point at
    put_cell(&mut bytes, 32, &nk_payload(0, 0xFFFFFFFF, 0, 0xFFFFFFFF, 0xFFFFFFFF, b"One", 92));
    put_cell(&mut bytes, 128, &nk_payload(0, 0xFFFFFFFF, 0, 0xFFFFFFFF, 0xFFFFFFFF, b"Two", 92));
    // first subleaf: a fast leaf holding One
    let mut lf1 = vec![0u8; 12];
    w16(&mut lf1, 0, 26220);
    w16(&mut lf1, 2, 1);
    w32(&mut lf1, 4, 32);
    lf1[8..12].copy_from_slice(b"One\0");
    put_cell(&mut bytes, 224, &lf1);
    // second subleaf: an index leaf holding Two
    let mut li2 = vec![0u8; 12];
    w16(&mut li2, 0, 26988);
    w16(&mut li2, 2, 1);
    w32(&mut li2, 4, 128);
    put_cell(&mut bytes, 240, &li2);
    // the root index over both subleaves
    let mut rip = vec![0u8; 12];
    w16(&mut rip, 0, 26994);
    w16(&mut rip, 2, 2);
    w32(&mut rip, 4, 224);
    w32(&mut rip, 8, 240);
    let mut ri = RootIndex::new(&rip, 0).unwrap();
    let first = ri.get_next_key(&bytes).unwrap().unwrap();
    assert_eq!(first.key_name().as_str(), "One");
    let second = ri.get_next_key(&bytes).unwrap().unwrap();
    assert_eq!(second.key_name().as_str(), "Two");
    assert!(ri.get_next_key(&bytes).unwrap().is_none());
    assert!(ri.get_next_key(&bytes).unwrap().is_none());
}
