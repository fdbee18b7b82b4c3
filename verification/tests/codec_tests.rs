use index3ds::data_format::{
    Exheader, ExefsHeader, NcchHeader, Smdh, EXEFS_HEADER_LEN, EXHEADER_LEN, NCCH_HEADER_LEN,
    SMDH_LEN,
};

fn pseudo_bytes(n: usize, seed: u64) -> Vec<u8> {
    let mut state = seed;
    let mut v = Vec::with_capacity(n);
    for _ in 0..n {
        state = state.wrapping_mul(6364136223846793005).wrapping_add(1442695040888963407);
        v.push((state >> 33) as u8);
    }
    v
}

#[test]
fn size_test() {
    assert_eq!(NCCH_HEADER_LEN, 0x200);
    assert_eq!(EXEFS_HEADER_LEN, 0x200);
    assert_eq!(SMDH_LEN, 0x36C0);
    assert_eq!(EXHEADER_LEN, 0x800);
}

#[test]
fn ncch_header_round_trip() {
    let b = pseudo_bytes(0x200, 1);
    let h = NcchHeader::read_bytes(&b);
    let out = h.write_bytes();
    assert_eq!(out, b);
}

#[test]
fn ncch_header_fields() {
    let mut b = vec![0u8; 0x200];
    b[0x100] = b'N';
    b[0x101] = b'C';
    b[0x102] = b'C';
    b[0x103] = b'H';
    // partition id 0x0123456789abcdef little-endian at 0x108
    let pid: u64 = 0x0123456789abcdef;
    b[0x108..0x110].copy_from_slice(&pid.to_le_bytes());
    b[0x180] = 0x00;
    b[0x181] = 0x04; // exheader_size = 0x400
    b[0x18f] = 0b0010_0101; // fixed_key, no_crypto, seed_crypto
    let h = NcchHeader::read_bytes(&b);
    assert_eq!(h.magic, b"NCCH".to_vec());
    assert_eq!(h.partition_id, pid);
    assert_eq!(h.exheader_size, 0x400);
    assert_eq!(h.key_config.fixed_key, 1);
    assert_eq!(h.key_config.no_romfs, 0);
    assert_eq!(h.key_config.no_crypto, 1);
    assert_eq!(h.key_config.seed_crypto, 1);
}

#[test]
fn exheader_round_trip() {
    let b = pseudo_bytes(0x800, 2);
    let e = Exheader::read_bytes(&b);
    let out = e.write_bytes();
    assert_eq!(out, b);
}

#[test]
fn exefs_header_round_trip() {
    let b = pseudo_bytes(0x200, 3);
    let x = ExefsHeader::read_bytes(&b);
    let out = x.write_bytes();
    assert_eq!(out, b);
}

#[test]
fn smdh_round_trip() {
    let b = pseudo_bytes(0x36C0, 4);
    let s = Smdh::read_bytes(&b);
    let out = s.write_bytes();
    assert_eq!(out, b);
}

#[test]
fn exefs_file_table() {
    let mut b = vec![0u8; 0x200];
    b[0..4].copy_from_slice(b"icon");
    b[8..12].copy_from_slice(&0x20u32.to_le_bytes());
    b[12..16].copy_from_slice(&0x36C0u32.to_le_bytes());
    let x = ExefsHeader::read_bytes(&b);
    assert_eq!(&x.files[0].name[0..4], b"icon");
    assert_eq!(x.files[0].offset, 0x20);
    assert_eq!(x.files[0].size, 0x36C0);
    assert_eq!(x.files.len(), 10);
    assert_eq!(x.hashes.len(), 10);
}

#[test]
fn unit_size_values() {
    let mut b = vec![0u8; 0x200];
    b[0x18e] = 0;
    let h = NcchHeader::read_bytes(&b);
    assert_eq!(h.unit_size(), 0x200);
    b[0x18e] = 3;
    let h = NcchHeader::read_bytes(&b);
    assert_eq!(h.unit_size(), 0x1000);
}

#[test]
fn ncsd_partition_table() {
    let mut table = vec![0u8; 0x40];
    table[0..4].copy_from_slice(&1u32.to_le_bytes());
    table[4..8].copy_from_slice(&0x100u32.to_le_bytes());
    table[8..12].copy_from_slice(&0x200u32.to_le_bytes());
    let parts = index3ds::data_format::ncsd_partitions(&table);
    assert_eq!(parts.len(), 8);
    assert_eq!(parts[0].offset, 1);
    assert_eq!(parts[0].size, 0x100);
    assert_eq!(parts[0].byte_offset(), 0x200);
    assert_eq!(parts[1].offset, 0x200);
    assert_eq!(parts[1].byte_offset(), 0x40000);
    assert_eq!(parts[7].offset, 0);
}
