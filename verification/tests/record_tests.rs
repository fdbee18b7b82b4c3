use index3ds::data_format::{Exheader, NcchHeader, Smdh};
use index3ds::record::{generate_keyword, NcchRecord};
use index3ds::strutil::{convert_string, convert_string16, normalize_chars, string_from_chars};

fn header_with_ids(partition: u64, program: u64) -> NcchHeader {
    let mut h = NcchHeader::read_bytes(&vec![0u8; 0x200]);
    h.partition_id = partition;
    h.program_id = program;
    h.product_code = b"CTR-P-ABCD\0\0\0\0\0\0".to_vec();
    h
}

#[test]
fn keyword_joins_normalized_entries() {
    let h = header_with_ids(0xAB, 0xCD);
    let k = generate_keyword(&h, None, None);
    assert_eq!(k, "00000000000000ab\n00000000000000cd\nctr-p-abcd\n");
}

#[test]
fn keyword_dedupes_repeated_entries() {
    let h = header_with_ids(0xAB, 0xAB);
    let k = generate_keyword(&h, None, None);
    assert_eq!(k, "00000000000000ab\nctr-p-abcd\n");
}

#[test]
fn keyword_includes_exheader_and_titles() {
    let h = header_with_ids(0xAB, 0xCD);
    let mut e = Exheader::read_bytes(&vec![0u8; 0x800]);
    e.name = b"My App\0\0".to_vec();
    e.access_control.program_id = 0xEF;
    let mut s = Smdh::read_bytes(&vec![0u8; 0x36C0]);
    let mut short = vec![0u16; 64];
    for (i, u) in "HELLO".encode_utf16().enumerate() {
        short[i] = u;
    }
    s.title[0].short = short;
    let k = generate_keyword(&h, Some(&e), Some(&s));
    assert!(k.contains("00000000000000ef\n"));
    assert!(k.contains("my app\n"));
    assert!(k.contains("hello\n"));
}

#[test]
fn record_id_and_flat_fields() {
    let mut h = header_with_ids(0xAABB, 0);
    h.signature = (0..=255u8).collect();
    h.content_size = 0xFFFF_FFFF;
    h.maker_code = 0x3130;
    h.version = 2;
    let expected_sig_hex = "000102030405060708090a0b0c0d0e0f";
    let r = NcchRecord::new(h, None, None);
    assert_eq!(r.id, format!("000000000000aabb-{}", expected_sig_hex));
    assert_eq!(r.content_size, -1);
    assert_eq!(r.maker_code, 0x3130);
    assert_eq!(r.ncch_verson, 2);
    assert!(r.exheader_name.is_none());
    assert!(r.short_title.is_none());
}

#[test]
fn record_carries_exheader_and_smdh() {
    let h = header_with_ids(1, 2);
    let mut e = Exheader::read_bytes(&vec![0u8; 0x800]);
    e.name = b"APPNAME\0".to_vec();
    e.save_data_size = 0x80000;
    e.access_control.core_flag.priority = 48;
    let mut s = Smdh::read_bytes(&vec![0u8; 0x36C0]);
    s.region_lockout = 0x7F;
    s.eula_version = 0x0102;
    let r = NcchRecord::new(h, Some(e), Some(s));
    assert_eq!(r.exheader_name.as_deref(), Some(b"APPNAME\0".as_slice()));
    assert_eq!(r.save_data_size, Some(0x80000));
    assert_eq!(r.thread_priority, Some(48));
    assert_eq!(r.region_lockout, Some(0x7F));
    assert_eq!(r.eula_version, Some(0x0102));
    assert_eq!(r.short_title.as_ref().map(|v| v.len()), Some(1024));
    assert_eq!(r.small_icon.as_ref().map(|v| v.len()), Some(576));
    assert_eq!(r.large_icon.as_ref().map(|v| v.len()), Some(2304));
}

#[test]
fn info_renders_hex_and_trims() {
    let mut h = header_with_ids(0xAABB, 0xCCDD);
    h.maker_code = (b'0' as u16) | ((b'1' as u16) << 8);
    let mut e = Exheader::read_bytes(&vec![0u8; 0x800]);
    e.dependencies[0] = 0x1111;
    e.dependencies[1] = 0x2222;
    e.access_control.kernel_desc = vec![-1i32 as u32; 28].into_iter().collect();
    e.access_control.kernel_desc[0] = 7;
    e.access_control.services[0] = b"srv:pm\0\0".to_vec();
    let r = NcchRecord::new(h, Some(e), None);
    let info = r.to_ncch_info();
    assert_eq!(info.partition_id, "000000000000aabb");
    assert_eq!(info.program_id, "000000000000ccdd");
    assert_eq!(info.maker_code, "01");
    assert_eq!(info.product_code, "CTR-P-ABCD");
    let deps = info.dependencies.expect("dependencies");
    assert_eq!(
        deps,
        vec!["0000000000001111".to_string(), "0000000000002222".to_string()]
    );
    let kd = info.kernel_desc.expect("kernel descriptors");
    assert_eq!(kd, vec![7u32]);
    let svc = info.services.expect("services");
    assert_eq!(svc, vec!["srv:pm".to_string()]);
}

#[test]
fn normalization_folds_case_accent_and_newline() {
    let input: Vec<char> = "AbC\u{e9}x\ny".chars().collect();
    let out = string_from_chars(&normalize_chars(&input));
    assert_eq!(out, "abcex y");
}

#[test]
fn string_conversions_trim_sentinels() {
    assert_eq!(convert_string(b"GAME\0\0\0"), "GAME");
    let units: Vec<u16> = vec![0x48, 0x69, 0, 0];
    assert_eq!(convert_string16(&units), "Hi");
}
