//! Canonicalization of parsed containers into the flat catalog record, with
//! the derived stable identifier and the search keyword.
use crate::api::NcchInfo;
use crate::data_format::{Exheader, NcchHeader, Smdh, SmdhTitle};
use crate::strutil::{
    convert_string, convert_string16, convert_string16_chars, convert_string_chars, hex64, hex_bytes,
    hex_bytes_chars, hex_u64_chars, normalize_chars, spec_convert_string,
    spec_convert_string16, spec_normalize, string_from_chars, trim_end, trim_i16, trim_i32,
    trim_i64,
};
use vstd::prelude::*;

verus! {

/// The flattened record persisted in the catalog. Unsigned header fields are
/// reinterpreted bitwise into the catalog's signed widths.
#[derive(Debug, Clone)]
pub struct NcchRecord {
    pub id: String,
    pub ncch_signature: Vec<u8>,
    pub content_size: i32,
    pub partition_id: i64,
    pub maker_code: i16,
    pub ncch_verson: i16,
    pub program_id: i64,
    pub product_code: Vec<u8>,
    pub secondary_key_slot: i16,
    pub platform: i16,
    pub content_is_data: bool,
    pub content_is_executable: bool,
    pub content_category: i16,
    pub content_unit_size: i16,
    pub fixed_key: bool,
    pub no_romfs: bool,
    pub no_crypto: bool,
    pub seed_crypto: bool,
    pub exheader_name: Option<Vec<u8>>,
    pub sd_app: Option<bool>,
    pub remaster_version: Option<i16>,
    pub dependencies: Option<Vec<i64>>,
    pub save_data_size: Option<i64>,
    pub jump_id: Option<i64>,
    pub exheader_program_id: Option<i64>,
    pub core_version: Option<i32>,
    pub enable_l2_cache: Option<bool>,
    pub high_cpu_speed: Option<bool>,
    pub system_mode: Option<i16>,
    pub n3ds_system_mode: Option<i16>,
    pub ideal_processor: Option<i16>,
    pub affinity_mask: Option<i16>,
    pub thread_priority: Option<i16>,
    pub resource_limit_desc: Option<Vec<i16>>,
    pub extdata_id: Option<i64>,
    pub system_savedata_id0: Option<i32>,
    pub system_savedata_id1: Option<i32>,
    pub storage_access_id: Option<i64>,
    pub filesystem_flag: Option<i64>,
    pub services: Option<Vec<Vec<u8>>>,
    pub resource_limit_category: Option<i16>,
    pub kernel_desc: Option<Vec<i32>>,
    pub arm9_flag: Option<i32>,
    pub arm9_flag_version: Option<i16>,
    pub short_title: Option<Vec<i16>>,
    pub long_title: Option<Vec<i16>>,
    pub publisher: Option<Vec<i16>>,
    pub ratings: Option<Vec<i16>>,
    pub region_lockout: Option<i32>,
    pub match_maker_id: Option<i32>,
    pub match_maker_bit_id: Option<i64>,
    pub smdh_flags: Option<i32>,
    pub eula_version: Option<i16>,
    pub cec_id: Option<i32>,
    pub small_icon: Option<Vec<i16>>,
    pub large_icon: Option<Vec<i16>>,
    pub keyword: String,
}

/// The stable content identifier: the partition id and the first sixteen
/// signature bytes, in lowercase hexadecimal.
pub open spec fn record_id_chars(h: NcchHeader) -> Seq<char> {
    hex64(h.partition_id) + seq!['-'] + hex_bytes(h.signature@.take(16))
}

/// The normalized keyword entries contributed by one title entry.
pub open spec fn title_entries(ts: Seq<SmdhTitle>) -> Seq<Seq<char>>
    decreases ts.len(),
{
    if ts.len() == 0 {
        Seq::empty()
    } else {
        title_entries(ts.drop_last()) + seq![
            spec_normalize(spec_convert_string16(ts.last().short@)),
            spec_normalize(spec_convert_string16(ts.last().long@)),
            spec_normalize(spec_convert_string16(ts.last().publisher@)),
        ]
    }
}

/// Every normalized keyword entry, in the order they are gathered.
pub open spec fn keyword_entries(h: NcchHeader, e: Option<Exheader>, s: Option<Smdh>) -> Seq<
    Seq<char>,
> {
    seq![
        spec_normalize(hex64(h.partition_id)),
        spec_normalize(hex64(h.program_id)),
        spec_normalize(spec_convert_string(h.product_code@)),
    ] + (match e {
        Some(ex) => seq![
            spec_normalize(hex64(ex.access_control.program_id)),
            spec_normalize(spec_convert_string(ex.name@)),
        ],
        None => Seq::empty(),
    }) + (match s {
        Some(sm) => title_entries(sm.title@),
        None => Seq::empty(),
    })
}

/// The first `i` entries with later duplicates removed, keeping the first
/// occurrence of each.
pub open spec fn dedup_take(es: Seq<Seq<char>>, i: int) -> Seq<Seq<char>>
    decreases i,
{
    if i <= 0 {
        Seq::empty()
    } else if es.take(i - 1).contains(es[i - 1]) {
        dedup_take(es, i - 1)
    } else {
        dedup_take(es, i - 1).push(es[i - 1])
    }
}

pub open spec fn spec_dedup(es: Seq<Seq<char>>) -> Seq<Seq<char>> {
    dedup_take(es, es.len() as int)
}

/// Each entry followed by a newline, in order.
pub open spec fn join_lines(es: Seq<Seq<char>>) -> Seq<char>
    decreases es.len(),
{
    if es.len() == 0 {
        Seq::empty()
    } else {
        join_lines(es.drop_last()) + es.last() + seq!['\n']
    }
}

/// The search keyword: the deduplicated normalized entries, newline-joined.
pub open spec fn spec_keyword(h: NcchHeader, e: Option<Exheader>, s: Option<Smdh>) -> Seq<char> {
    join_lines(spec_dedup(keyword_entries(h, e, s)))
}

/// The view of a gathered entry list.
pub open spec fn entries_view(d: Seq<Vec<char>>) -> Seq<Seq<char>> {
    d.map_values(|v: Vec<char>| v@)
}

fn chars_eq(a: &Vec<char>, b: &Vec<char>) -> (r: bool)
    ensures
        r == (a@ == b@),
{
    if a.len() != b.len() {
        return false;
    }
    let mut i: usize = 0;
    while i < a.len()
        invariant
            i <= a@.len(),
            a@.len() == b@.len(),
            forall|k: int| 0 <= k < i ==> a@[k] == b@[k],
        decreases a@.len() - i,
    {
        if a[i] != b[i] {
            return false;
        }
        i = i + 1;
    }
    proof {
        assert(a@ =~= b@);
    }
    true
}

fn contains_entry(d: &Vec<Vec<char>>, e: &Vec<char>) -> (b: bool)
    ensures
        b == entries_view(d@).contains(e@),
{
    let mut j: usize = 0;
    while j < d.len()
        invariant
            j <= d@.len(),
            forall|k: int| 0 <= k < j ==> (#[trigger] d@[k])@ != e@,
        decreases d@.len() - j,
    {
        if chars_eq(&d[j], e) {
            proof {
                assert(entries_view(d@)[j as int] == e@);
            }
            return true;
        }
        j = j + 1;
    }
    proof {
        assert forall|k: int| 0 <= k < d@.len() implies entries_view(d@)[k] != e@ by {
            assert(d@[k]@ != e@);
        }
    }
    false
}

fn push_entry(d: &mut Vec<Vec<char>>, e: Vec<char>, Ghost(es): Ghost<Seq<Seq<char>>>, Ghost(
    i,
): Ghost<int>)
    requires
        0 <= i < es.len(),
        es[i] == e@,
        entries_view(old(d)@) == dedup_take(es, i),
        forall|x: Seq<char>| entries_view(old(d)@).contains(x) <==> es.take(i).contains(x),
    ensures
        entries_view(final(d)@) == dedup_take(es, i + 1),
        forall|x: Seq<char>| entries_view(final(d)@).contains(x) <==> es.take(i + 1).contains(x),
{
    let dup = contains_entry(d, &e);
    proof {
        assert(es.take(i + 1) =~= es.take(i).push(es[i]));
    }
    if !dup {
        d.push(e);
        proof {
            assert(entries_view(d@) =~= dedup_take(es, i + 1));
            assert forall|x: Seq<char>| entries_view(d@).contains(x) <==> es.take(i + 1).contains(
                x,
            ) by {
                if entries_view(d@).contains(x) {
                    let k = choose|k: int| 0 <= k < entries_view(d@).len() && #[trigger] entries_view(d@)[k] == x;
                    if k < entries_view(d@).len() - 1 {
                        assert(entries_view(old(d)@)[k] == x);
                        assert(entries_view(old(d)@).contains(x));
                    } else {
                        assert(x == e@);
                        assert(es.take(i + 1)[i] == x);
                    }
                }
                if es.take(i + 1).contains(x) {
                    let k = choose|k: int| 0 <= k < i + 1 && #[trigger] es.take(i + 1)[k] == x;
                    if k < i {
                        assert(es.take(i)[k] == x);
                        assert(es.take(i).contains(x));
                        let m = choose|m: int|
                            0 <= m < entries_view(old(d)@).len() && #[trigger] entries_view(old(d)@)[m] == x;
                        assert(entries_view(d@)[m] == x);
                    } else {
                        assert(x == e@);
                        assert(entries_view(d@).last() == x);
                    }
                }
            }
        }
    } else {
        proof {
            assert(entries_view(d@) =~= dedup_take(es, i + 1));
            assert forall|x: Seq<char>| entries_view(d@).contains(x) <==> es.take(i + 1).contains(
                x,
            ) by {
                if es.take(i + 1).contains(x) {
                    let k = choose|k: int| 0 <= k < i + 1 && #[trigger] es.take(i + 1)[k] == x;
                    if k < i {
                        assert(es.take(i)[k] == x);
                        assert(es.take(i).contains(x));
                    } else {
                        assert(x == e@);
                        assert(es.take(i).contains(e@));
                    }
                }
                if entries_view(d@).contains(x) {
                    assert(es.take(i).contains(x));
                    let k = choose|k: int| 0 <= k < i && #[trigger] es.take(i)[k] == x;
                    assert(es.take(i + 1)[k] == x);
                }
            }
        }
    }
}

/// Builds the newline-joined, deduplicated keyword text for a container.
pub fn generate_keyword(header: &NcchHeader, exheader: Option<&Exheader>, smdh: Option<&Smdh>) -> (r:
    String)
    ensures
        r@ == spec_keyword(
            *header,
            match exheader {
                Some(e) => Some(*e),
                None => None,
            },
            match smdh {
                Some(s) => Some(*s),
                None => None,
            },
        ),
{
    let ghost eopt: Option<Exheader> = match exheader {
        Some(e) => Some(*e),
        None => None,
    };
    let ghost sopt: Option<Smdh> = match smdh {
        Some(s) => Some(*s),
        None => None,
    };
    let ghost es = keyword_entries(*header, eopt, sopt);

    let mut raw: Vec<Vec<char>> = Vec::new();
    let h1 = hex_u64_chars(header.partition_id);
    raw.push(normalize_chars(&h1));
    let h2 = hex_u64_chars(header.program_id);
    raw.push(normalize_chars(&h2));
    let p1 = convert_string_chars(header.product_code.as_slice());
    raw.push(normalize_chars(&p1));
    match exheader {
        Some(e) => {
            let h3 = hex_u64_chars(e.access_control.program_id);
            raw.push(normalize_chars(&h3));
            let n1 = convert_string_chars(e.name.as_slice());
            raw.push(normalize_chars(&n1));
        },
        None => {},
    }
    match smdh {
        Some(s) => {
            let mut t: usize = 0;
            proof {
                lemma_title_entries_prefix(s.title@, 0);
                assert(entries_view(raw@) =~= es.take(raw@.len() as int));
            }
            let ghost base = raw@.len() as int;
            while t < s.title.len()
                invariant
                    t <= s.title@.len(),
                    base + 3 * s.title@.len() == es.len(),
                    0 <= base,
                    entries_view(raw@).len() == base + 3 * t,
                    es == keyword_entries(*header, eopt, sopt),
                    sopt == Some(*s),
                    forall|m: int|
                        0 <= m < 3 * s.title@.len() ==> es[base + m] == #[trigger] title_entries(
                            s.title@,
                        )[m],
                    entries_view(raw@) =~= es.take(base + 3 * t),
                decreases s.title@.len() - t,
            {
                let e1 = convert_string16_chars(s.title[t].short.as_slice());
                raw.push(normalize_chars(&e1));
                let e2 = convert_string16_chars(s.title[t].long.as_slice());
                raw.push(normalize_chars(&e2));
                let e3 = convert_string16_chars(s.title[t].publisher.as_slice());
                raw.push(normalize_chars(&e3));
                proof {
                    let ts = s.title@;
                    let tt = title_entries(ts);
                    lemma_title_entries_prefix(ts, t + 1);
                    lemma_title_entries_prefix(ts, t as int);
                    assert(ts.take(t + 1).drop_last() =~= ts.take(t as int));
                    assert(ts.take(t + 1).last() == ts[t as int]);
                    assert(tt.take(3 * (t + 1)) == title_entries(ts.take(t as int)) + seq![
                        spec_normalize(spec_convert_string16(ts[t as int].short@)),
                        spec_normalize(spec_convert_string16(ts[t as int].long@)),
                        spec_normalize(spec_convert_string16(ts[t as int].publisher@)),
                    ]);
                    assert forall|m: int| 0 <= m < base + 3 * (t + 1) implies es.take(
                        base + 3 * (t + 1),
                    )[m] == entries_view(raw@)[m] by {
                        if m >= base {
                            assert(es[m] == tt[m - base]);
                            assert(tt.take(3 * (t + 1))[m - base] == tt[m - base]);
                        }
                    }
                    assert(entries_view(raw@) =~= es.take(base + 3 * (t + 1)));
                }
                t = t + 1;
            }
        },
        None => {},
    }
    proof {
        assert(entries_view(raw@) =~= es);
    }

    let mut d: Vec<Vec<char>> = Vec::new();
    let mut i: usize = 0;
    proof {
        assert(entries_view(d@) =~= dedup_take(es, 0));
        assert(forall|x: Seq<char>|
            entries_view(d@).contains(x) <==> es.take(0).contains(x)) by {
            assert(es.take(0) =~= Seq::<Seq<char>>::empty());
        }
    }
    while i < raw.len()
        invariant
            i <= raw@.len(),
            entries_view(raw@) == es,
            entries_view(d@) == dedup_take(es, i as int),
            forall|x: Seq<char>| entries_view(d@).contains(x) <==> es.take(i as int).contains(x),
        decreases raw@.len() - i,
    {
        let e = raw[i].clone();
        proof {
            assert(e@ == entries_view(raw@)[i as int]);
        }
        push_entry(&mut d, e, Ghost(es), Ghost(i as int));
        i = i + 1;
    }
    proof {
        assert(dedup_take(es, raw@.len() as int) == spec_dedup(es));
    }

    let mut out: Vec<char> = Vec::new();
    let mut j: usize = 0;
    proof {
        let dv = entries_view(d@);
        assert(out@ =~= join_lines(dv.take(0)));
    }
    while j < d.len()
        invariant
            j <= d@.len(),
            entries_view(d@) == spec_dedup(es),
            out@ == join_lines(entries_view(d@).take(j as int)),
        decreases d@.len() - j,
    {
        out.extend_from_slice(d[j].as_slice());
        out.push('\n');
        proof {
            let dv = entries_view(d@);
            assert(dv.take(j + 1).drop_last() =~= dv.take(j as int));
            assert(dv.take(j + 1).last() == dv[j as int]);
            assert(out@ =~= join_lines(dv.take(j + 1)));
        }
        j = j + 1;
    }
    proof {
        assert(entries_view(d@).take(d@.len() as int) =~= entries_view(d@));
    }
    string_from_chars(&out)
}

/// The concatenated short titles of all entries, reinterpreted bitwise.
pub open spec fn flat_shorts(ts: Seq<SmdhTitle>) -> Seq<i16>
    decreases ts.len(),
{
    if ts.len() == 0 {
        Seq::empty()
    } else {
        flat_shorts(ts.drop_last()) + ts.last().short@.map_values(|c: u16| c as i16)
    }
}

/// The concatenated long titles of all entries, reinterpreted bitwise.
pub open spec fn flat_longs(ts: Seq<SmdhTitle>) -> Seq<i16>
    decreases ts.len(),
{
    if ts.len() == 0 {
        Seq::empty()
    } else {
        flat_longs(ts.drop_last()) + ts.last().long@.map_values(|c: u16| c as i16)
    }
}

/// The concatenated publisher names of all entries, reinterpreted bitwise.
pub open spec fn flat_publishers(ts: Seq<SmdhTitle>) -> Seq<i16>
    decreases ts.len(),
{
    if ts.len() == 0 {
        Seq::empty()
    } else {
        flat_publishers(ts.drop_last()) + ts.last().publisher@.map_values(|c: u16| c as i16)
    }
}

fn u16s_to_i16s(v: &Vec<u16>) -> (r: Vec<i16>)
    ensures
        r@ == v@.map_values(|x: u16| x as i16),
{
    let mut r: Vec<i16> = Vec::new();
    let mut i: usize = 0;
    while i < v.len()
        invariant
            i <= v@.len(),
            r@.len() == i,
            forall|k: int| 0 <= k < i ==> r@[k] == (v@[k] as i16),
        decreases v@.len() - i,
    {
        r.push(#[verifier::truncate] (v[i] as i16));
        i = i + 1;
    }
    proof {
        assert(r@ =~= v@.map_values(|x: u16| x as i16));
    }
    r
}

fn u32s_to_i32s(v: &Vec<u32>) -> (r: Vec<i32>)
    ensures
        r@ == v@.map_values(|x: u32| x as i32),
{
    let mut r: Vec<i32> = Vec::new();
    let mut i: usize = 0;
    while i < v.len()
        invariant
            i <= v@.len(),
            r@.len() == i,
            forall|k: int| 0 <= k < i ==> r@[k] == (v@[k] as i32),
        decreases v@.len() - i,
    {
        r.push(#[verifier::truncate] (v[i] as i32));
        i = i + 1;
    }
    proof {
        assert(r@ =~= v@.map_values(|x: u32| x as i32));
    }
    r
}

fn u64s_to_i64s(v: &Vec<u64>) -> (r: Vec<i64>)
    ensures
        r@ == v@.map_values(|x: u64| x as i64),
{
    let mut r: Vec<i64> = Vec::new();
    let mut i: usize = 0;
    while i < v.len()
        invariant
            i <= v@.len(),
            r@.len() == i,
            forall|k: int| 0 <= k < i ==> r@[k] == (v@[k] as i64),
        decreases v@.len() - i,
    {
        r.push(#[verifier::truncate] (v[i] as i64));
        i = i + 1;
    }
    proof {
        assert(r@ =~= v@.map_values(|x: u64| x as i64));
    }
    r
}

fn u8s_to_i16s(v: &Vec<u8>) -> (r: Vec<i16>)
    ensures
        r@ == v@.map_values(|x: u8| x as i16),
{
    let mut r: Vec<i16> = Vec::new();
    let mut i: usize = 0;
    while i < v.len()
        invariant
            i <= v@.len(),
            r@.len() == i,
            forall|k: int| 0 <= k < i ==> r@[k] == (v@[k] as i16),
        decreases v@.len() - i,
    {
        r.push(v[i] as i16);
        i = i + 1;
    }
    proof {
        assert(r@ =~= v@.map_values(|x: u8| x as i16));
    }
    r
}

fn copy_rows(v: &Vec<Vec<u8>>) -> (r: Vec<Vec<u8>>)
    ensures
        r@.len() == v@.len(),
        forall|k: int| 0 <= k < v@.len() ==> (#[trigger] r@[k])@ == (#[trigger] v@[k])@,
{
    let mut r: Vec<Vec<u8>> = Vec::new();
    let mut i: usize = 0;
    while i < v.len()
        invariant
            i <= v@.len(),
            r@.len() == i,
            forall|k: int| 0 <= k < i ==> (#[trigger] r@[k])@ == v@[k]@,
        decreases v@.len() - i,
    {
        r.push(vstd::slice::slice_to_vec(v[i].as_slice()));
        i = i + 1;
    }
    r
}

fn flat_titles(ts: &Vec<SmdhTitle>, which: u8) -> (r: Vec<i16>)
    requires
        which < 3,
    ensures
        which == 0 ==> r@ == flat_shorts(ts@),
        which == 1 ==> r@ == flat_longs(ts@),
        which == 2 ==> r@ == flat_publishers(ts@),
{
    let mut r: Vec<i16> = Vec::new();
    let mut i: usize = 0;
    while i < ts.len()
        invariant
            i <= ts@.len(),
            which < 3,
            which == 0 ==> r@ == flat_shorts(ts@.take(i as int)),
            which == 1 ==> r@ == flat_longs(ts@.take(i as int)),
            which == 2 ==> r@ == flat_publishers(ts@.take(i as int)),
        decreases ts@.len() - i,
    {
        let part = if which == 0 {
            u16s_to_i16s(&ts[i].short)
        } else if which == 1 {
            u16s_to_i16s(&ts[i].long)
        } else {
            u16s_to_i16s(&ts[i].publisher)
        };
        let mut part = part;
        proof {
            assert(ts@.take(i + 1).drop_last() =~= ts@.take(i as int));
            assert(ts@.take(i + 1).last() == ts@[i as int]);
        }
        r.append(&mut part);
        i = i + 1;
    }
    proof {
        assert(ts@.take(ts@.len() as int) =~= ts@);
    }
    r
}

/// The flat catalog record derived from a parsed container: every field of
/// `r` is pinned to the corresponding parsed field, the stable identifier
/// and the search keyword included.
pub open spec fn is_record_of(
    r: NcchRecord,
    h: NcchHeader,
    e: Option<Exheader>,
    s: Option<Smdh>,
) -> bool {
    &&& r.id@ == record_id_chars(h)
    &&& r.ncch_signature@ == h.signature@
    &&& r.content_size == h.content_size as i32
    &&& r.partition_id == h.partition_id as i64
    &&& r.maker_code == h.maker_code as i16
    &&& r.ncch_verson == h.version as i16
    &&& r.program_id == h.program_id as i64
    &&& r.product_code@ == h.product_code@
    &&& r.secondary_key_slot == h.secondary_key_slot as i16
    &&& r.platform == h.platform as i16
    &&& r.content_is_data == (h.content_type.is_data != 0)
    &&& r.content_is_executable == (h.content_type.is_executable != 0)
    &&& r.content_category == h.content_type.category as i16
    &&& r.content_unit_size == h.content_unit_size as i16
    &&& r.fixed_key == (h.key_config.fixed_key != 0)
    &&& r.no_romfs == (h.key_config.no_romfs != 0)
    &&& r.no_crypto == (h.key_config.no_crypto != 0)
    &&& r.seed_crypto == (h.key_config.seed_crypto != 0)
    &&& (match e {
        Some(ex) => {
            &&& r.exheader_name matches Some(v) && v@ == ex.name@
            &&& r.sd_app == Some(ex.system_control_flag.sd_app != 0)
            &&& r.remaster_version == Some(ex.remaster_version as i16)
            &&& r.dependencies matches Some(v) && v@ == ex.dependencies@.map_values(
                |x: u64| x as i64,
            )
            &&& r.save_data_size == Some(ex.save_data_size as i64)
            &&& r.jump_id == Some(ex.jump_id as i64)
            &&& r.exheader_program_id == Some(ex.access_control.program_id as i64)
            &&& r.core_version == Some(ex.access_control.core_version as i32)
            &&& r.enable_l2_cache == Some(ex.access_control.core_flag.enable_l2_cache != 0)
            &&& r.high_cpu_speed == Some(ex.access_control.core_flag.high_cpu_speed != 0)
            &&& r.system_mode == Some(ex.access_control.core_flag.system_mode as i16)
            &&& r.n3ds_system_mode == Some(ex.access_control.core_flag.n3ds_system_mode as i16)
            &&& r.ideal_processor == Some(ex.access_control.core_flag.ideal_processor as i16)
            &&& r.affinity_mask == Some(ex.access_control.core_flag.affinity_mask as i16)
            &&& r.thread_priority == Some(ex.access_control.core_flag.priority as i16)
            &&& r.resource_limit_desc matches Some(v) && v@
                == ex.access_control.resource_limit_desc@.map_values(|x: u16| x as i16)
            &&& r.extdata_id == Some(ex.access_control.extdata_id as i64)
            &&& r.system_savedata_id0 == Some(ex.access_control.system_savedata_id@[0] as i32)
            &&& r.system_savedata_id1 == Some(ex.access_control.system_savedata_id@[1] as i32)
            &&& r.storage_access_id == Some(ex.access_control.storage_access_id as i64)
            &&& r.filesystem_flag == Some(ex.access_control.filesystem_flag as i64)
            &&& r.services matches Some(v) && v@.len() == ex.access_control.services@.len()
                && (forall|k: int|
                0 <= k < v@.len() ==> (#[trigger] v@[k])@ == ex.access_control.services@[k]@)
            &&& r.resource_limit_category == Some(
                ex.access_control.resource_limit_category as i16,
            )
            &&& r.kernel_desc matches Some(v) && v@ == ex.access_control.kernel_desc@.map_values(
                |x: u32| x as i32,
            )
            &&& r.arm9_flag == Some(ex.access_control.arm9_flag as i32)
            &&& r.arm9_flag_version == Some(ex.access_control.arm9_flag_version as i16)
        },
        None => {
            &&& r.exheader_name is None
            &&& r.sd_app is None
            &&& r.remaster_version is None
            &&& r.dependencies is None
            &&& r.save_data_size is None
            &&& r.jump_id is None
            &&& r.exheader_program_id is None
            &&& r.core_version is None
            &&& r.enable_l2_cache is None
            &&& r.high_cpu_speed is None
            &&& r.system_mode is None
            &&& r.n3ds_system_mode is None
            &&& r.ideal_processor is None
            &&& r.affinity_mask is None
            &&& r.thread_priority is None
            &&& r.resource_limit_desc is None
            &&& r.extdata_id is None
            &&& r.system_savedata_id0 is None
            &&& r.system_savedata_id1 is None
            &&& r.storage_access_id is None
            &&& r.filesystem_flag is None
            &&& r.services is None
            &&& r.resource_limit_category is None
            &&& r.kernel_desc is None
            &&& r.arm9_flag is None
            &&& r.arm9_flag_version is None
        },
    })
    &&& (match s {
        Some(sm) => {
            &&& r.short_title matches Some(v) && v@ == flat_shorts(sm.title@)
            &&& r.long_title matches Some(v) && v@ == flat_longs(sm.title@)
            &&& r.publisher matches Some(v) && v@ == flat_publishers(sm.title@)
            &&& r.ratings matches Some(v) && v@ == sm.ratings@.map_values(|x: u8| x as i16)
            &&& r.region_lockout == Some(sm.region_lockout as i32)
            &&& r.match_maker_id == Some(sm.match_maker_id as i32)
            &&& r.match_maker_bit_id == Some(sm.match_maker_bit_id as i64)
            &&& r.smdh_flags == Some(sm.flags as i32)
            &&& r.eula_version == Some(sm.eula_version as i16)
            &&& r.cec_id == Some(sm.cec_id as i32)
            &&& r.small_icon matches Some(v) && v@ == sm.small_icon@.map_values(|x: u16| x as i16)
            &&& r.large_icon matches Some(v) && v@ == sm.large_icon@.map_values(|x: u16| x as i16)
        },
        None => {
            &&& r.short_title is None
            &&& r.long_title is None
            &&& r.publisher is None
            &&& r.ratings is None
            &&& r.region_lockout is None
            &&& r.match_maker_id is None
            &&& r.match_maker_bit_id is None
            &&& r.smdh_flags is None
            &&& r.eula_version is None
            &&& r.cec_id is None
            &&& r.small_icon is None
            &&& r.large_icon is None
        },
    })
    &&& r.keyword@ == spec_keyword(h, e, s)
}

impl NcchRecord {
    /// Flattens a verified container into the catalog record shape.
    pub fn new(header: NcchHeader, exheader: Option<Exheader>, smdh: Option<Smdh>) -> (r:
        NcchRecord)
        requires
            header.wf(),
            exheader matches Some(e) ==> e.wf(),
        ensures
            is_record_of(r, header, exheader, smdh),
    {
        let keyword = generate_keyword(&header, exheader.as_ref(), smdh.as_ref());
        let mut idc = hex_u64_chars(header.partition_id);
        idc.push('-');
        let mut hb = hex_bytes_chars(
            vstd::slice::slice_subrange(header.signature.as_slice(), 0, 16),
        );
        proof {
            assert(header.signature@.subrange(0, 16) =~= header.signature@.take(16));
        }
        idc.append(&mut hb);
        proof {
            assert(idc@ =~= record_id_chars(header));
        }
        let id = string_from_chars(&idc);

        NcchRecord {
            id,
            ncch_signature: vstd::slice::slice_to_vec(header.signature.as_slice()),
            content_size: #[verifier::truncate] (header.content_size as i32),
            partition_id: #[verifier::truncate] (header.partition_id as i64),
            maker_code: #[verifier::truncate] (header.maker_code as i16),
            ncch_verson: #[verifier::truncate] (header.version as i16),
            program_id: #[verifier::truncate] (header.program_id as i64),
            product_code: vstd::slice::slice_to_vec(header.product_code.as_slice()),
            secondary_key_slot: header.secondary_key_slot as i16,
            platform: header.platform as i16,
            content_is_data: header.content_type.is_data != 0,
            content_is_executable: header.content_type.is_executable != 0,
            content_category: header.content_type.category as i16,
            content_unit_size: header.content_unit_size as i16,
            fixed_key: header.key_config.fixed_key != 0,
            no_romfs: header.key_config.no_romfs != 0,
            no_crypto: header.key_config.no_crypto != 0,
            seed_crypto: header.key_config.seed_crypto != 0,
            exheader_name: match &exheader {
                Some(e) => Some(vstd::slice::slice_to_vec(e.name.as_slice())),
                None => None,
            },
            sd_app: match &exheader {
                Some(e) => Some(e.system_control_flag.sd_app != 0),
                None => None,
            },
            remaster_version: match &exheader {
                Some(e) => Some(#[verifier::truncate] (e.remaster_version as i16)),
                None => None,
            },
            dependencies: match &exheader {
                Some(e) => Some(u64s_to_i64s(&e.dependencies)),
                None => None,
            },
            save_data_size: match &exheader {
                Some(e) => Some(#[verifier::truncate] (e.save_data_size as i64)),
                None => None,
            },
            jump_id: match &exheader {
                Some(e) => Some(#[verifier::truncate] (e.jump_id as i64)),
                None => None,
            },
            exheader_program_id: match &exheader {
                Some(e) => Some(#[verifier::truncate] (e.access_control.program_id as i64)),
                None => None,
            },
            core_version: match &exheader {
                Some(e) => Some(#[verifier::truncate] (e.access_control.core_version as i32)),
                None => None,
            },
            enable_l2_cache: match &exheader {
                Some(e) => Some(e.access_control.core_flag.enable_l2_cache != 0),
                None => None,
            },
            high_cpu_speed: match &exheader {
                Some(e) => Some(e.access_control.core_flag.high_cpu_speed != 0),
                None => None,
            },
            system_mode: match &exheader {
                Some(e) => Some(#[verifier::truncate] (e.access_control.core_flag.system_mode
                    as i16)),
                None => None,
            },
            n3ds_system_mode: match &exheader {
                Some(e) => Some(
                    #[verifier::truncate] (e.access_control.core_flag.n3ds_system_mode as i16),
                ),
                None => None,
            },
            ideal_processor: match &exheader {
                Some(e) => Some(#[verifier::truncate] (e.access_control.core_flag.ideal_processor
                    as i16)),
                None => None,
            },
            affinity_mask: match &exheader {
                Some(e) => Some(#[verifier::truncate] (e.access_control.core_flag.affinity_mask
                    as i16)),
                None => None,
            },
            thread_priority: match &exheader {
                Some(e) => Some(#[verifier::truncate] (e.access_control.core_flag.priority as i16)),
                None => None,
            },
            resource_limit_desc: match &exheader {
                Some(e) => Some(u16s_to_i16s(&e.access_control.resource_limit_desc)),
                None => None,
            },
            extdata_id: match &exheader {
                Some(e) => Some(#[verifier::truncate] (e.access_control.extdata_id as i64)),
                None => None,
            },
            system_savedata_id0: match &exheader {
                Some(e) => Some(#[verifier::truncate] (e.access_control.system_savedata_id[0]
                    as i32)),
                None => None,
            },
            system_savedata_id1: match &exheader {
                Some(e) => Some(#[verifier::truncate] (e.access_control.system_savedata_id[1]
                    as i32)),
                None => None,
            },
            storage_access_id: match &exheader {
                Some(e) => Some(#[verifier::truncate] (e.access_control.storage_access_id as i64)),
                None => None,
            },
            filesystem_flag: match &exheader {
                Some(e) => Some(#[verifier::truncate] (e.access_control.filesystem_flag as i64)),
                None => None,
            },
            services: match &exheader {
                Some(e) => Some(copy_rows(&e.access_control.services)),
                None => None,
            },
            resource_limit_category: match &exheader {
                Some(e) => Some(e.access_control.resource_limit_category as i16),
                None => None,
            },
            kernel_desc: match &exheader {
                Some(e) => Some(u32s_to_i32s(&e.access_control.kernel_desc)),
                None => None,
            },
            arm9_flag: match &exheader {
                Some(e) => Some(#[verifier::truncate] (e.access_control.arm9_flag as i32)),
                None => None,
            },
            arm9_flag_version: match &exheader {
                Some(e) => Some(e.access_control.arm9_flag_version as i16),
                None => None,
            },
            short_title: match &smdh {
                Some(s) => Some(flat_titles(&s.title, 0)),
                None => None,
            },
            long_title: match &smdh {
                Some(s) => Some(flat_titles(&s.title, 1)),
                None => None,
            },
            publisher: match &smdh {
                Some(s) => Some(flat_titles(&s.title, 2)),
                None => None,
            },
            ratings: match &smdh {
                Some(s) => Some(u8s_to_i16s(&s.ratings)),
                None => None,
            },
            region_lockout: match &smdh {
                Some(s) => Some(#[verifier::truncate] (s.region_lockout as i32)),
                None => None,
            },
            match_maker_id: match &smdh {
                Some(s) => Some(#[verifier::truncate] (s.match_maker_id as i32)),
                None => None,
            },
            match_maker_bit_id: match &smdh {
                Some(s) => Some(#[verifier::truncate] (s.match_maker_bit_id as i64)),
                None => None,
            },
            smdh_flags: match &smdh {
                Some(s) => Some(#[verifier::truncate] (s.flags as i32)),
                None => None,
            },
            eula_version: match &smdh {
                Some(s) => Some(#[verifier::truncate] (s.eula_version as i16)),
                None => None,
            },
            cec_id: match &smdh {
                Some(s) => Some(#[verifier::truncate] (s.cec_id as i32)),
                None => None,
            },
            small_icon: match &smdh {
                Some(s) => Some(u16s_to_i16s(&s.small_icon)),
                None => None,
            },
            large_icon: match &smdh {
                Some(s) => Some(u16s_to_i16s(&s.large_icon)),
                None => None,
            },
            keyword,
        }
    }
}

/// An all-zero service-name row.
pub open spec fn zero_row8() -> Seq<u8> {
    Seq::new(8, |i: int| 0u8)
}

/// `s` with every trailing all-zero row removed.
pub open spec fn trim_rows(s: Seq<Vec<u8>>) -> Seq<Vec<u8>>
    decreases s.len(),
{
    if s.len() > 0 && s.last()@ == zero_row8() {
        trim_rows(s.drop_last())
    } else {
        s
    }
}

/// The views of a sequence of strings.
pub open spec fn strings_view(v: Seq<String>) -> Seq<Seq<char>> {
    v.map_values(|s: String| s@)
}

/// The sixteen per-language strings read from a stored title column, split
/// into equal chunks and decoded as zero-trimmed UTF-16.
pub open spec fn title_chunk_strings(x: Seq<i16>) -> Seq<Seq<char>> {
    let c = x.len() as int / 16;
    Seq::new(
        16,
        |k: int|
            spec_convert_string16(x.subrange(k * c, (k + 1) * c).map_values(|v: i16| v as u16)),
    )
}

fn i16s_to_u16s(v: &Vec<i16>) -> (r: Vec<u16>)
    ensures
        r@ == v@.map_values(|x: i16| x as u16),
{
    let mut r: Vec<u16> = Vec::new();
    let mut i: usize = 0;
    while i < v.len()
        invariant
            i <= v@.len(),
            r@.len() == i,
            forall|k: int| 0 <= k < i ==> r@[k] == (v@[k] as u16),
        decreases v@.len() - i,
    {
        r.push(#[verifier::truncate] (v[i] as u16));
        i = i + 1;
    }
    proof {
        assert(r@ =~= v@.map_values(|x: i16| x as u16));
    }
    r
}

fn i32s_to_u32s(v: &Vec<i32>) -> (r: Vec<u32>)
    ensures
        r@ == v@.map_values(|x: i32| x as u32),
{
    let mut r: Vec<u32> = Vec::new();
    let mut i: usize = 0;
    while i < v.len()
        invariant
            i <= v@.len(),
            r@.len() == i,
            forall|k: int| 0 <= k < i ==> r@[k] == (v@[k] as u32),
        decreases v@.len() - i,
    {
        r.push(#[verifier::truncate] (v[i] as u32));
        i = i + 1;
    }
    proof {
        assert(r@ =~= v@.map_values(|x: i32| x as u32));
    }
    r
}

fn is_zero_row(v: &Vec<u8>) -> (b: bool)
    ensures
        b == (v@ == zero_row8()),
{
    if v.len() != 8 {
        return false;
    }
    let mut i: usize = 0;
    while i < 8
        invariant
            i <= 8,
            v@.len() == 8,
            forall|k: int| 0 <= k < i ==> v@[k] == 0u8,
        decreases 8 - i,
    {
        if v[i] != 0 {
            proof {
                assert(v@[i as int] != zero_row8()[i as int]);
            }
            return false;
        }
        i = i + 1;
    }
    proof {
        assert(v@ =~= zero_row8());
    }
    true
}

fn trim_zero_rows(v: &Vec<Vec<u8>>) -> (r: Vec<Vec<u8>>)
    ensures
        r@.len() == trim_rows(v@).len(),
        forall|k: int| 0 <= k < r@.len() ==> (#[trigger] r@[k])@ == trim_rows(v@)[k]@,
{
    let mut n: usize = v.len();
    proof {
        assert(v@.take(n as int) =~= v@);
    }
    while n > 0 && is_zero_row(&v[n - 1])
        invariant
            n <= v@.len(),
            trim_rows(v@) == trim_rows(v@.take(n as int)),
        decreases n,
    {
        proof {
            assert(v@.take(n as int).drop_last() =~= v@.take(n - 1));
        }
        n = n - 1;
    }
    proof {
        assert(trim_rows(v@.take(n as int)) == v@.take(n as int));
    }
    let mut r: Vec<Vec<u8>> = Vec::new();
    let mut i: usize = 0;
    while i < n
        invariant
            i <= n,
            n <= v@.len(),
            r@.len() == i,
            forall|k: int| 0 <= k < i ==> (#[trigger] r@[k])@ == v@[k]@,
        decreases n - i,
    {
        r.push(vstd::slice::slice_to_vec(v[i].as_slice()));
        i = i + 1;
    }
    r
}

fn convert_title(title: &Option<Vec<i16>>) -> (r: Option<Vec<String>>)
    requires
        title matches Some(v) ==> v@.len() >= 16 && v@.len() % 16 == 0,
    ensures
        match *title {
            Some(v) => r matches Some(w) && strings_view(w@) == title_chunk_strings(v@),
            None => r is None,
        },
{
    match title {
        None => None,
        Some(x) => {
            let u = i16s_to_u16s(x);
            let c: usize = x.len() / 16;
            let mut out: Vec<String> = Vec::new();
            let mut k: usize = 0;
            let mut pos: usize = 0;
            while k < 16
                invariant
                    k <= 16,
                    c == x@.len() as int / 16,
                    pos == k * c,
                    x@.len() % 16 == 0,
                    x@.len() >= 16,
                    u@ == x@.map_values(|v: i16| v as u16),
                    u@.len() == x@.len(),
                    out@.len() == k,
                    forall|m: int|
                        0 <= m < k ==> (#[trigger] out@[m])@ == title_chunk_strings(x@)[m],
                decreases 16 - k,
            {
                let _l: usize = u.len();
                proof {
                    assert(16 * (x@.len() as int / 16) == x@.len()) by {
                        assert(x@.len() % 16 == 0);
                        vstd::arithmetic::div_mod::lemma_fundamental_div_mod(
                            x@.len() as int,
                            16,
                        );
                    }
                    assert((k + 1) * c <= 16 * c && (k + 1) * c == k * c + c) by (nonlinear_arith)
                        requires
                            k < 16,
                            c >= 0,
                    ;
                }
                let piece = vstd::slice::slice_subrange(u.as_slice(), pos, pos + c);
                proof {
                    assert(piece@ =~= x@.subrange(k * c, (k + 1) * c).map_values(
                        |v: i16| v as u16,
                    ));
                }
                let s = convert_string16(piece);
                out.push(s);
                k = k + 1;
                pos = pos + c;
            }
            proof {
                assert(strings_view(out@) =~= title_chunk_strings(x@));
            }
            Some(out)
        },
    }
}

/// The client-facing info derived from a stored record: identifiers are
/// rendered in hexadecimal, stored arrays are trimmed of their sentinel
/// values, and text columns are decoded.
pub open spec fn is_info_of(info: NcchInfo, r: NcchRecord) -> bool {
    &&& info.id@ == r.id@
    &&& info.ncch_signature@ == r.ncch_signature@
    &&& info.content_size == r.content_size as u32
    &&& info.partition_id@ == hex64(r.partition_id as u64)
    &&& info.maker_code@ == seq![
        (((r.maker_code as u16) & 0xff) as u8) as char,
        (((r.maker_code as u16) >> 8) as u8) as char,
    ]
    &&& info.ncch_verson == r.ncch_verson as u16
    &&& info.program_id@ == hex64(r.program_id as u64)
    &&& info.product_code@ == spec_convert_string(r.product_code@)
    &&& info.secondary_key_slot == r.secondary_key_slot as u8
    &&& info.platform == r.platform as u8
    &&& info.content_is_data == r.content_is_data
    &&& info.content_is_executable == r.content_is_executable
    &&& info.content_category == r.content_category as u8
    &&& info.content_unit_size == r.content_unit_size as u8
    &&& info.fixed_key == r.fixed_key
    &&& info.no_romfs == r.no_romfs
    &&& info.no_crypto == r.no_crypto
    &&& info.seed_crypto == r.seed_crypto
    &&& (match r.exheader_name {
        Some(v) => info.exheader_name matches Some(s) && s@ == spec_convert_string(v@),
        None => info.exheader_name is None,
    })
    &&& info.sd_app == r.sd_app
    &&& (match r.remaster_version {
        Some(x) => info.remaster_version == Some(x as u16),
        None => info.remaster_version is None,
    })
    &&& (match r.dependencies {
        Some(v) => info.dependencies matches Some(w) && strings_view(w@) == trim_end(
            v@,
            0i64,
        ).map_values(|x: i64| hex64(x as u64)),
        None => info.dependencies is None,
    })
    &&& (match r.save_data_size {
        Some(x) => info.save_data_size == Some(x as u64),
        None => info.save_data_size is None,
    })
    &&& (match r.jump_id {
        Some(x) => info.jump_id matches Some(s) && s@ == hex64(x as u64),
        None => info.jump_id is None,
    })
    &&& (match r.exheader_program_id {
        Some(x) => info.exheader_program_id matches Some(s) && s@ == hex64(x as u64),
        None => info.exheader_program_id is None,
    })
    &&& (match r.core_version {
        Some(x) => info.core_version == Some(x as u32),
        None => info.core_version is None,
    })
    &&& info.enable_l2_cache == r.enable_l2_cache
    &&& info.high_cpu_speed == r.high_cpu_speed
    &&& (match r.system_mode {
        Some(x) => info.system_mode == Some(x as u8),
        None => info.system_mode is None,
    })
    &&& (match r.n3ds_system_mode {
        Some(x) => info.n3ds_system_mode == Some(x as u8),
        None => info.n3ds_system_mode is None,
    })
    &&& (match r.ideal_processor {
        Some(x) => info.ideal_processor == Some(x as u8),
        None => info.ideal_processor is None,
    })
    &&& (match r.affinity_mask {
        Some(x) => info.affinity_mask == Some(x as u8),
        None => info.affinity_mask is None,
    })
    &&& (match r.thread_priority {
        Some(x) => info.thread_priority == Some(x as u8),
        None => info.thread_priority is None,
    })
    &&& (match r.resource_limit_desc {
        Some(v) => info.resource_limit_desc matches Some(w) && w@ == trim_end(
            v@,
            0i16,
        ).map_values(|x: i16| x as u16),
        None => info.resource_limit_desc is None,
    })
    &&& (match r.extdata_id {
        Some(x) => info.extdata_id matches Some(s) && s@ == hex64(x as u64),
        None => info.extdata_id is None,
    })
    &&& (match r.system_savedata_id0 {
        Some(x) => info.system_savedata_id0 matches Some(s) && s@ == crate::strutil::hex32(
            x as u32,
        ),
        None => info.system_savedata_id0 is None,
    })
    &&& (match r.system_savedata_id1 {
        Some(x) => info.system_savedata_id1 matches Some(s) && s@ == crate::strutil::hex32(
            x as u32,
        ),
        None => info.system_savedata_id1 is None,
    })
    &&& (match r.storage_access_id {
        Some(x) => info.storage_access_id matches Some(s) && s@ == hex64(x as u64),
        None => info.storage_access_id is None,
    })
    &&& (match r.filesystem_flag {
        Some(x) => info.filesystem_flag == Some(x as u64),
        None => info.filesystem_flag is None,
    })
    &&& (match r.services {
        Some(v) => info.services matches Some(w) && strings_view(w@) == trim_rows(v@).map_values(
            |row: Vec<u8>| spec_convert_string(row@),
        ),
        None => info.services is None,
    })
    &&& (match r.resource_limit_category {
        Some(x) => info.resource_limit_category == Some(x as u8),
        None => info.resource_limit_category is None,
    })
    &&& (match r.kernel_desc {
        Some(v) => info.kernel_desc matches Some(w) && w@ == trim_end(v@, -1i32).map_values(
            |x: i32| x as u32,
        ),
        None => info.kernel_desc is None,
    })
    &&& (match r.arm9_flag {
        Some(x) => info.arm9_flag == Some(x as u32),
        None => info.arm9_flag is None,
    })
    &&& (match r.arm9_flag_version {
        Some(x) => info.arm9_flag_version == Some(x as u8),
        None => info.arm9_flag_version is None,
    })
    &&& (match r.short_title {
        Some(v) => info.short_title matches Some(w) && strings_view(w@) == title_chunk_strings(v@),
        None => info.short_title is None,
    })
    &&& (match r.long_title {
        Some(v) => info.long_title matches Some(w) && strings_view(w@) == title_chunk_strings(v@),
        None => info.long_title is None,
    })
    &&& (match r.publisher {
        Some(v) => info.publisher matches Some(w) && strings_view(w@) == title_chunk_strings(v@),
        None => info.publisher is None,
    })
    &&& (match r.ratings {
        Some(v) => info.ratings matches Some(w) && w@ == v@.map_values(|x: i16| x as u8),
        None => info.ratings is None,
    })
    &&& (match r.region_lockout {
        Some(x) => info.region_lockout == Some(x as u32),
        None => info.region_lockout is None,
    })
    &&& (match r.match_maker_id {
        Some(x) => info.match_maker_id matches Some(s) && s@ == crate::strutil::hex32(x as u32),
        None => info.match_maker_id is None,
    })
    &&& (match r.match_maker_bit_id {
        Some(x) => info.match_maker_bit_id matches Some(s) && s@ == hex64(x as u64),
        None => info.match_maker_bit_id is None,
    })
    &&& (match r.smdh_flags {
        Some(x) => info.smdh_flags == Some(x as u32),
        None => info.smdh_flags is None,
    })
    &&& (match r.eula_version {
        Some(x) => info.eula_version == Some(x as u16),
        None => info.eula_version is None,
    })
    &&& (match r.cec_id {
        Some(x) => info.cec_id matches Some(s) && s@ == crate::strutil::hex32(x as u32),
        None => info.cec_id is None,
    })
}

fn i16s_to_u8s(v: &Vec<i16>) -> (r: Vec<u8>)
    ensures
        r@ == v@.map_values(|x: i16| x as u8),
{
    let mut r: Vec<u8> = Vec::new();
    let mut i: usize = 0;
    while i < v.len()
        invariant
            i <= v@.len(),
            r@.len() == i,
            forall|k: int| 0 <= k < i ==> r@[k] == (v@[k] as u8),
        decreases v@.len() - i,
    {
        r.push(#[verifier::truncate] (v[i] as u8));
        i = i + 1;
    }
    proof {
        assert(r@ =~= v@.map_values(|x: i16| x as u8));
    }
    r
}

fn hex_i64_string(x: i64) -> (r: String)
    ensures
        r@ == hex64(x as u64),
{
    let cs = hex_u64_chars(#[verifier::truncate] (x as u64));
    string_from_chars(&cs)
}

fn hex_i32_string(x: i32) -> (r: String)
    ensures
        r@ == crate::strutil::hex32(x as u32),
{
    let cs = crate::strutil::hex_u32_chars(#[verifier::truncate] (x as u32));
    string_from_chars(&cs)
}

impl NcchRecord {
    /// Renders this stored record into the client-facing info shape.
    pub fn to_ncch_info(&self) -> (info: NcchInfo)
        requires
            self.short_title matches Some(v) ==> v@.len() >= 16 && v@.len() % 16 == 0,
            self.long_title matches Some(v) ==> v@.len() >= 16 && v@.len() % 16 == 0,
            self.publisher matches Some(v) ==> v@.len() >= 16 && v@.len() % 16 == 0,
        ensures
            is_info_of(info, *self),
    {
        let maker = #[verifier::truncate] (self.maker_code as u16);
        let mut maker_chars: Vec<char> = Vec::new();
        maker_chars.push(((maker & 0xff) as u8) as char);
        maker_chars.push(#[verifier::truncate] ((maker >> 8) as u8) as char);
        proof {
            assert(maker_chars@ =~= seq![
                (((self.maker_code as u16) & 0xff) as u8) as char,
                (((self.maker_code as u16) >> 8) as u8) as char,
            ]);
            assert(((maker >> 8) as u8) == #[verifier::truncate] ((maker >> 8) as u8)) by (bit_vector);
        }
        let pid_chars = hex_u64_chars(#[verifier::truncate] (self.partition_id as u64));
        let prog_chars = hex_u64_chars(#[verifier::truncate] (self.program_id as u64));

        let dependencies: Option<Vec<String>> = match &self.dependencies {
            Some(v) => {
                let t = trim_i64(0, v.as_slice());
                let mut w: Vec<String> = Vec::new();
                let mut i: usize = 0;
                while i < t.len()
                    invariant
                        i <= t@.len(),
                        w@.len() == i,
                        forall|k: int| 0 <= k < i ==> (#[trigger] w@[k])@ == hex64(t@[k] as u64),
                    decreases t@.len() - i,
                {
                    w.push(hex_i64_string(t[i]));
                    i = i + 1;
                }
                proof {
                    assert(strings_view(w@) =~= t@.map_values(|x: i64| hex64(x as u64)));
                }
                Some(w)
            },
            None => None,
        };

        let services: Option<Vec<String>> = match &self.services {
            Some(v) => {
                let t = trim_zero_rows(v);
                let mut w: Vec<String> = Vec::new();
                let mut i: usize = 0;
                while i < t.len()
                    invariant
                        i <= t@.len(),
                        w@.len() == i,
                        forall|k: int|
                            0 <= k < t@.len() ==> (#[trigger] t@[k])@ == trim_rows(
                                self.services->Some_0@,
                            )[k]@,
                        t@.len() == trim_rows(self.services->Some_0@).len(),
                        forall|k: int|
                            0 <= k < i ==> (#[trigger] w@[k])@ == spec_convert_string(t@[k]@),
                    decreases t@.len() - i,
                {
                    w.push(convert_string(t[i].as_slice()));
                    i = i + 1;
                }
                proof {
                    assert(strings_view(w@) =~= trim_rows(self.services->Some_0@).map_values(
                        |row: Vec<u8>| spec_convert_string(row@),
                    ));
                }
                Some(w)
            },
            None => None,
        };

        NcchInfo {
            id: self.id.clone(),
            ncch_signature: vstd::slice::slice_to_vec(self.ncch_signature.as_slice()),
            content_size: #[verifier::truncate] (self.content_size as u32),
            partition_id: string_from_chars(&pid_chars),
            maker_code: string_from_chars(&maker_chars),
            ncch_verson: #[verifier::truncate] (self.ncch_verson as u16),
            program_id: string_from_chars(&prog_chars),
            product_code: convert_string(self.product_code.as_slice()),
            secondary_key_slot: #[verifier::truncate] (self.secondary_key_slot as u8),
            platform: #[verifier::truncate] (self.platform as u8),
            content_is_data: self.content_is_data,
            content_is_executable: self.content_is_executable,
            content_category: #[verifier::truncate] (self.content_category as u8),
            content_unit_size: #[verifier::truncate] (self.content_unit_size as u8),
            fixed_key: self.fixed_key,
            no_romfs: self.no_romfs,
            no_crypto: self.no_crypto,
            seed_crypto: self.seed_crypto,
            exheader_name: match &self.exheader_name {
                Some(v) => Some(convert_string(v.as_slice())),
                None => None,
            },
            sd_app: self.sd_app,
            remaster_version: match self.remaster_version {
                Some(x) => Some(#[verifier::truncate] (x as u16)),
                None => None,
            },
            dependencies,
            save_data_size: match self.save_data_size {
                Some(x) => Some(#[verifier::truncate] (x as u64)),
                None => None,
            },
            jump_id: match self.jump_id {
                Some(x) => Some(hex_i64_string(x)),
                None => None,
            },
            exheader_program_id: match self.exheader_program_id {
                Some(x) => Some(hex_i64_string(x)),
                None => None,
            },
            core_version: match self.core_version {
                Some(x) => Some(#[verifier::truncate] (x as u32)),
                None => None,
            },
            enable_l2_cache: self.enable_l2_cache,
            high_cpu_speed: self.high_cpu_speed,
            system_mode: match self.system_mode {
                Some(x) => Some(#[verifier::truncate] (x as u8)),
                None => None,
            },
            n3ds_system_mode: match self.n3ds_system_mode {
                Some(x) => Some(#[verifier::truncate] (x as u8)),
                None => None,
            },
            ideal_processor: match self.ideal_processor {
                Some(x) => Some(#[verifier::truncate] (x as u8)),
                None => None,
            },
            affinity_mask: match self.affinity_mask {
                Some(x) => Some(#[verifier::truncate] (x as u8)),
                None => None,
            },
            thread_priority: match self.thread_priority {
                Some(x) => Some(#[verifier::truncate] (x as u8)),
                None => None,
            },
            resource_limit_desc: match &self.resource_limit_desc {
                Some(v) => {
                    let t = trim_i16(0, v.as_slice());
                    Some(i16s_to_u16s(&t))
                },
                None => None,
            },
            extdata_id: match self.extdata_id {
                Some(x) => Some(hex_i64_string(x)),
                None => None,
            },
            system_savedata_id0: match self.system_savedata_id0 {
                Some(x) => Some(hex_i32_string(x)),
                None => None,
            },
            system_savedata_id1: match self.system_savedata_id1 {
                Some(x) => Some(hex_i32_string(x)),
                None => None,
            },
            storage_access_id: match self.storage_access_id {
                Some(x) => Some(hex_i64_string(x)),
                None => None,
            },
            filesystem_flag: match self.filesystem_flag {
                Some(x) => Some(#[verifier::truncate] (x as u64)),
                None => None,
            },
            services,
            resource_limit_category: match self.resource_limit_category {
                Some(x) => Some(#[verifier::truncate] (x as u8)),
                None => None,
            },
            kernel_desc: match &self.kernel_desc {
                Some(v) => {
                    let t = trim_i32(-1, v.as_slice());
                    Some(i32s_to_u32s(&t))
                },
                None => None,
            },
            arm9_flag: match self.arm9_flag {
                Some(x) => Some(#[verifier::truncate] (x as u32)),
                None => None,
            },
            arm9_flag_version: match self.arm9_flag_version {
                Some(x) => Some(#[verifier::truncate] (x as u8)),
                None => None,
            },
            short_title: convert_title(&self.short_title),
            long_title: convert_title(&self.long_title),
            publisher: convert_title(&self.publisher),
            ratings: match &self.ratings {
                Some(v) => Some(i16s_to_u8s(v)),
                None => None,
            },
            region_lockout: match self.region_lockout {
                Some(x) => Some(#[verifier::truncate] (x as u32)),
                None => None,
            },
            match_maker_id: match self.match_maker_id {
                Some(x) => Some(hex_i32_string(x)),
                None => None,
            },
            match_maker_bit_id: match self.match_maker_bit_id {
                Some(x) => Some(hex_i64_string(x)),
                None => None,
            },
            smdh_flags: match self.smdh_flags {
                Some(x) => Some(#[verifier::truncate] (x as u32)),
                None => None,
            },
            eula_version: match self.eula_version {
                Some(x) => Some(#[verifier::truncate] (x as u16)),
                None => None,
            },
            cec_id: match self.cec_id {
                Some(x) => Some(hex_i32_string(x)),
                None => None,
            },
        }
    }
}

proof fn lemma_title_entries_len(ts: Seq<SmdhTitle>)
    ensures
        title_entries(ts).len() == 3 * ts.len(),
    decreases ts.len(),
{
    if ts.len() > 0 {
        lemma_title_entries_len(ts.drop_last());
    }
}

proof fn lemma_title_entries_prefix(ts: Seq<SmdhTitle>, i: int)
    requires
        0 <= i <= ts.len(),
    ensures
        title_entries(ts).len() == 3 * ts.len(),
        title_entries(ts).take(3 * i) == title_entries(ts.take(i)),
    decreases ts.len(),
{
    lemma_title_entries_len(ts);
    if ts.len() == 0 {
        assert(ts.take(i) =~= ts);
        assert(title_entries(ts).take(3 * i) =~= title_entries(ts));
    } else if i == ts.len() {
        assert(ts.take(i) =~= ts);
        assert(title_entries(ts).take(3 * i) =~= title_entries(ts));
    } else {
        lemma_title_entries_prefix(ts.drop_last(), i);
        lemma_title_entries_len(ts.drop_last());
        assert(ts.drop_last().take(i) =~= ts.take(i));
        assert(title_entries(ts).take(3 * i) =~= title_entries(ts.drop_last()).take(3 * i));
    }
}

} // verus!
