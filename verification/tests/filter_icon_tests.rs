use index3ds::api::{Comparator, NcchFilterParam, NcchQueryParam, StringWrapper};
use index3ds::filter::{
    filter_ncch, keyword_pattern, parse_hex_u32, parse_hex_u64, query_window_valid, DatabaseError,
    FilterCond, FilterValue,
};
use index3ds::icon::{icon_rgb, render_icon_png};

#[test]
fn keyword_pattern_escapes_like_metacharacters() {
    let p: String = keyword_pattern("A%b_c\\").into_iter().collect();
    assert_eq!(p, "%a\\%b\\_c\\\\%");
}

#[test]
fn hex_parsing() {
    assert_eq!(parse_hex_u64("ff"), Some(255));
    assert_eq!(parse_hex_u64("0"), Some(0));
    assert_eq!(parse_hex_u64("DeadBeef"), Some(0xdeadbeef));
    assert_eq!(parse_hex_u64("ffffffffffffffff"), Some(u64::MAX));
    assert_eq!(parse_hex_u64(""), None);
    assert_eq!(parse_hex_u64("xyz"), None);
    assert_eq!(parse_hex_u64("10000000000000000"), None);
    assert_eq!(parse_hex_u32("ffffffff"), Some(u32::MAX));
    assert_eq!(parse_hex_u32("100000000"), None);
}

#[test]
fn query_window_bounds() {
    let mut q = NcchQueryParam { offset: 0, limit: 1, filter: NcchFilterParam::default() };
    assert!(query_window_valid(&q));
    q.limit = 100;
    assert!(query_window_valid(&q));
    q.limit = 101;
    assert!(!query_window_valid(&q));
    q.limit = 0;
    assert!(!query_window_valid(&q));
    q.limit = 10;
    q.offset = -1;
    assert!(!query_window_valid(&q));
}

#[test]
fn empty_filter_yields_no_conditions() {
    let p = NcchFilterParam::default();
    let conds = filter_ncch(&p).expect("valid");
    assert!(conds.is_empty());
}

#[test]
fn filter_starts_with_keyword_condition() {
    let mut p = NcchFilterParam::default();
    p.keyword = Some("Zelda".to_string());
    let conds = filter_ncch(&p).expect("valid");
    assert_eq!(conds.len(), 1);
    match &conds[0] {
        FilterCond::KeywordLike(v) => {
            let s: String = v.iter().collect();
            assert_eq!(s, "%zelda%");
        }
        _ => panic!("expected keyword condition first"),
    }
}

#[test]
fn filter_comparator_conditions() {
    let mut p = NcchFilterParam::default();
    p.content_size_cmp = Some(Comparator::Ge);
    p.content_size_rhs = Some(StringWrapper::new(0x4000u32));
    let conds = filter_ncch(&p).expect("valid");
    assert_eq!(conds.len(), 1);
    match &conds[0] {
        FilterCond::Compare(col, Comparator::Ge, FilterValue::Int(v)) => {
            assert_eq!(*col, "content_size");
            assert_eq!(*v, 0x4000);
        }
        _ => panic!("expected a comparator condition"),
    }
}

#[test]
fn filter_mask_conditions() {
    let mut p = NcchFilterParam::default();
    p.partition_id = Some("aabb".to_string());
    p.partition_id_mask = Some("ffff".to_string());
    let conds = filter_ncch(&p).expect("valid");
    match &conds[0] {
        FilterCond::MaskMatch(col, mask, v) => {
            assert_eq!(*col, "partition_id");
            assert_eq!(*mask, 0xffff);
            assert_eq!(*v, 0xaabb);
        }
        _ => panic!("expected a mask condition"),
    }
}

#[test]
fn filter_rejects_malformed_parameters() {
    let mut p = NcchFilterParam::default();
    p.content_size_cmp = Some(Comparator::Eq);
    p.content_size_rhs = None;
    assert!(matches!(filter_ncch(&p), Err(DatabaseError::InvalidParam)));

    let mut p = NcchFilterParam::default();
    p.partition_id = Some("aabb".to_string());
    p.partition_id_mask = None;
    assert!(matches!(filter_ncch(&p), Err(DatabaseError::InvalidParam)));

    let mut p = NcchFilterParam::default();
    p.maker_code = Some("ABC".to_string());
    assert!(matches!(filter_ncch(&p), Err(DatabaseError::InvalidParam)));

    let mut p = NcchFilterParam::default();
    p.product_code = Some("SEVENTEEN-CHARS-X".to_string());
    assert!(matches!(filter_ncch(&p), Err(DatabaseError::InvalidParam)));

    let mut p = NcchFilterParam::default();
    p.cec_id = Some("nothex".to_string());
    assert!(matches!(filter_ncch(&p), Err(DatabaseError::InvalidParam)));
}

#[test]
fn filter_pads_fixed_width_codes() {
    let mut p = NcchFilterParam::default();
    p.product_code = Some("AB".to_string());
    let conds = filter_ncch(&p).expect("valid");
    match &conds[0] {
        FilterCond::Equals(col, FilterValue::Bytes(b)) => {
            assert_eq!(*col, "product_code");
            assert_eq!(b.len(), 16);
            assert_eq!(&b[0..2], b"AB");
            assert!(b[2..].iter().all(|&x| x == 0));
        }
        _ => panic!("expected a padded equality condition"),
    }
}

#[test]
fn icon_detiling_uses_swizzle_tables() {
    let mut icon = vec![0i16; 576];
    // pixel (0,0) sits at tiled index 0; pure red in RGB565
    icon[0] = 0xF800u16 as i16;
    // pixel (1,0) sits at tiled index 1; pure green
    icon[1] = 0x07E0u16 as i16;
    // pixel (0,1) sits at tiled index 2; pure blue
    icon[2] = 0x001Fu16 as i16;
    let (rgb, w) = icon_rgb(&icon).expect("valid size");
    assert_eq!(w, 24);
    assert_eq!(rgb.len(), 24 * 24 * 3);
    assert_eq!(&rgb[0..3], &[255, 0, 0]);
    let p10 = 3 * 1;
    assert_eq!(&rgb[p10..p10 + 3], &[0, 255, 0]);
    let p01 = 3 * 24;
    assert_eq!(&rgb[p01..p01 + 3], &[0, 0, 255]);
}

#[test]
fn icon_channel_expansion() {
    let mut icon = vec![0i16; 576];
    icon[0] = 0xFFFFu16 as i16;
    let (rgb, _) = icon_rgb(&icon).expect("valid size");
    assert_eq!(&rgb[0..3], &[255, 255, 255]);
}

#[test]
fn icon_rejects_odd_sizes() {
    assert!(icon_rgb(&vec![0i16; 100]).is_none());
    assert!(render_icon_png(&vec![0i16; 100]).is_none());
    assert!(icon_rgb(&vec![0i16; 2304]).is_some());
    assert!(render_icon_png(&vec![0i16; 2304]).is_some());
}

#[test]
fn icon_png_has_signature() {
    let icon = vec![0i16; 576];
    let png = render_icon_png(&icon).expect("encodable");
    assert_eq!(&png[0..8], &[0x89, b'P', b'N', b'G', b'\r', b'\n', 0x1A, b'\n']);
}
