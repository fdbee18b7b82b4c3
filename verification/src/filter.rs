//! The catalog query plan: parameter validation and the abstract list of
//! filter conditions that the catalog applies to its records.
use crate::api::{Comparator, NcchFilterParam, NcchQueryParam, StringWrapper};
use crate::strutil::{normalize_chars, spec_normalize, str_chars};
use vstd::prelude::*;

verus! {

/// The catalog's failure kinds as the handlers see them.
#[derive(Debug)]
pub enum DatabaseError {
    Conflict,
    NotFound,
    InvalidParam,
    Other,
}

/// A typed right-hand-side value of one filter condition.
#[derive(Debug)]
pub enum FilterValue {
    SmallInt(i16),
    Int(i32),
    BigInt(i64),
    Flag(bool),
    Bytes(Vec<u8>),
}

/// One condition of the catalog filter, in the order the conditions are
/// applied to the query.
#[derive(Debug)]
pub enum FilterCond {
    /// A substring match of the escaped pattern against the keyword column.
    KeywordLike(Vec<char>),
    /// A comparator between a column and a value.
    Compare(&'static str, Comparator, FilterValue),
    /// Column equality.
    Equals(&'static str, FilterValue),
    /// The column is present and masked equality holds.
    MaskMatch(&'static str, i64, i64),
}

/// A LIKE pattern character is escaped with a backslash when it is itself a
/// backslash, percent or underscore.
pub open spec fn escape_char(c: char) -> Seq<char> {
    if c == '\\' || c == '%' || c == '_' {
        seq!['\\', c]
    } else {
        seq![c]
    }
}

/// The escaped pattern body of a keyword search.
pub open spec fn spec_escape_like(s: Seq<char>) -> Seq<char>
    decreases s.len(),
{
    if s.len() == 0 {
        Seq::empty()
    } else {
        spec_escape_like(s.drop_last()) + escape_char(s.last())
    }
}

/// The full keyword pattern: the normalized text, escaped, between two
/// wildcard characters.
pub open spec fn spec_keyword_pattern(s: Seq<char>) -> Seq<char> {
    seq!['%'] + spec_escape_like(spec_normalize(s)) + seq!['%']
}

fn escape_like(s: &Vec<char>) -> (r: Vec<char>)
    ensures
        r@ == spec_escape_like(s@),
{
    let mut r: Vec<char> = Vec::new();
    let mut i: usize = 0;
    proof {
        assert(s@.take(0) =~= Seq::<char>::empty());
    }
    while i < s.len()
        invariant
            i <= s@.len(),
            r@ == spec_escape_like(s@.take(i as int)),
        decreases s@.len() - i,
    {
        let c = s[i];
        proof {
            assert(s@.take(i + 1).drop_last() =~= s@.take(i as int));
            assert(s@.take(i + 1).last() == s@[i as int]);
        }
        if c == '\\' || c == '%' || c == '_' {
            r.push('\\');
            r.push(c);
            proof {
                assert(r@ =~= spec_escape_like(s@.take(i + 1)));
            }
        } else {
            r.push(c);
            proof {
                assert(r@ =~= spec_escape_like(s@.take(i + 1)));
            }
        }
        i = i + 1;
    }
    proof {
        assert(s@.take(s@.len() as int) =~= s@);
    }
    r
}

/// Builds the keyword LIKE pattern for a search text.
pub fn keyword_pattern(text: &str) -> (r: Vec<char>)
    ensures
        r@ == spec_keyword_pattern(text@),
{
    let cs = str_chars(text);
    let n = normalize_chars(&cs);
    let e = escape_like(&n);
    let mut r: Vec<char> = Vec::new();
    r.push('%');
    let mut e = e;
    r.append(&mut e);
    r.push('%');
    proof {
        assert(r@ =~= spec_keyword_pattern(text@));
    }
    r
}

/// The numeric value of one hexadecimal digit, or 16 for any other
/// character.
pub open spec fn hex_val(c: char) -> int {
    if '0' <= c && c <= '9' {
        c as int - '0' as int
    } else if 'a' <= c && c <= 'f' {
        c as int - 'a' as int + 10
    } else if 'A' <= c && c <= 'F' {
        c as int - 'A' as int + 10
    } else {
        16
    }
}

/// Whether a character sequence is a valid hexadecimal number that fits in
/// `bits` bits: nonempty, all digits, and small enough.
pub open spec fn spec_hex_u64(s: Seq<char>) -> int
    decreases s.len(),
{
    if s.len() == 0 {
        0
    } else {
        spec_hex_u64(s.drop_last()) * 16 + hex_val(s.last())
    }
}

pub open spec fn hex_parses(s: Seq<char>, bound: int) -> bool {
    &&& s.len() > 0
    &&& forall|i: int| 0 <= i < s.len() ==> hex_val(#[trigger] s[i]) < 16
    &&& spec_hex_u64(s) < bound
}

/// Reads an unsigned hexadecimal number of at most 64 bits, as the radix-16
/// string parser does; any malformed or oversized text is refused.
pub fn parse_hex_u64(text: &str) -> (r: Option<u64>)
    ensures
        match r {
            Some(v) => hex_parses(text@, 0x1_0000_0000_0000_0000) && v == spec_hex_u64(text@),
            None => !hex_parses(text@, 0x1_0000_0000_0000_0000),
        },
{
    let cs = str_chars(text);
    if cs.len() == 0 {
        return None;
    }
    let mut acc: u64 = 0;
    let mut i: usize = 0;
    proof {
        assert(cs@.take(0) =~= Seq::<char>::empty());
    }
    while i < cs.len()
        invariant
            i <= cs@.len(),
            cs@ == text@,
            acc == spec_hex_u64(cs@.take(i as int)),
            forall|k: int| 0 <= k < i ==> hex_val(#[trigger] cs@[k]) < 16,
            spec_hex_u64(cs@.take(i as int)) < 0x1_0000_0000_0000_0000,
        decreases cs@.len() - i,
    {
        let c = cs[i];
        let d: u64 = if '0' <= c && c <= '9' {
            (c as u32 - '0' as u32) as u64
        } else if 'a' <= c && c <= 'f' {
            (c as u32 - 'a' as u32 + 10) as u64
        } else if 'A' <= c && c <= 'F' {
            (c as u32 - 'A' as u32 + 10) as u64
        } else {
            return None;
        };
        if acc > 0xfff_ffff_ffff_ffff {
            proof {
                assert(cs@.take(i + 1).drop_last() =~= cs@.take(i as int));
                assert(cs@.take(i + 1).last() == cs@[i as int]);
                lemma_hex_nonneg(cs@.take(i as int));
                lemma_hex_prefix_le(cs@, i + 1);
                assert(spec_hex_u64(cs@.take(i + 1)) >= 0x1_0000_0000_0000_0000);
            }
            return None;
        }
        proof {
            assert(cs@.take(i + 1).drop_last() =~= cs@.take(i as int));
            assert(cs@.take(i + 1).last() == cs@[i as int]);
        }
        acc = acc * 16 + d;
        i = i + 1;
    }
    proof {
        assert(cs@.take(cs@.len() as int) =~= cs@);
    }
    Some(acc)
}

/// Reads an unsigned hexadecimal number of at most 32 bits.
pub fn parse_hex_u32(text: &str) -> (r: Option<u32>)
    ensures
        match r {
            Some(v) => hex_parses(text@, 0x1_0000_0000) && v == spec_hex_u64(text@),
            None => !hex_parses(text@, 0x1_0000_0000),
        },
{
    match parse_hex_u64(text) {
        Some(v) => {
            if v <= 0xffff_ffff {
                Some(v as u32)
            } else {
                None
            }
        },
        None => None,
    }
}

proof fn lemma_hex_nonneg(s: Seq<char>)
    ensures
        spec_hex_u64(s) >= 0,
    decreases s.len(),
{
    if s.len() > 0 {
        lemma_hex_nonneg(s.drop_last());
    }
}

proof fn lemma_hex_prefix_le(s: Seq<char>, j: int)
    requires
        0 <= j <= s.len(),
    ensures
        spec_hex_u64(s) >= spec_hex_u64(s.take(j)),
    decreases s.len() - j,
{
    if j == s.len() {
        assert(s.take(j) =~= s);
    } else {
        lemma_hex_prefix_le(s, j + 1);
        assert(s.take(j + 1).drop_last() =~= s.take(j));
        assert(s.take(j + 1).last() == s[j]);
        lemma_hex_nonneg(s.take(j));
    }
}

/// Whether a query window is acceptable: a page of 1 to 100 records at a
/// non-negative offset.
pub fn query_window_valid(param: &NcchQueryParam) -> (r: bool)
    ensures
        r == (1 <= param.limit <= 100 && param.offset >= 0),
{
    param.limit >= 1 && param.limit <= 100 && param.offset >= 0
}

fn cmp_cond_u8(
    conds: &mut Vec<FilterCond>,
    cmp: &Option<Comparator>,
    rhs: &Option<StringWrapper<u8>>,
    column: &'static str,
) -> (ok: bool)
    ensures
        final(conds)@.len() >= old(conds)@.len(),
        forall|k: int| 0 <= k < old(conds)@.len() ==> final(conds)@[k] == old(conds)@[k],
        forall|k: int|
            old(conds)@.len() <= k < final(conds)@.len() ==> !((
            #[trigger] final(conds)@[k]) is KeywordLike),
        cmp is None ==> ok && final(conds)@ == old(conds)@,
        cmp matches Some(c) ==> (ok ==> exists|v: u8|
            final(conds)@ == #[trigger] old(conds)@.push(
                FilterCond::Compare(column, *c, FilterValue::SmallInt(v as i16)),
            )),
        !ok ==> final(conds)@ == old(conds)@,
{
    match cmp {
        Some(c) => match rhs {
            Some(w) => match w.value() {
                Some(v) => {
                    conds.push(FilterCond::Compare(column, *c, FilterValue::SmallInt(v as i16)));
                    true
                },
                None => false,
            },
            None => false,
        },
        None => true,
    }
}

fn cmp_cond_u16(
    conds: &mut Vec<FilterCond>,
    cmp: &Option<Comparator>,
    rhs: &Option<StringWrapper<u16>>,
    column: &'static str,
) -> (ok: bool)
    ensures
        final(conds)@.len() >= old(conds)@.len(),
        forall|k: int| 0 <= k < old(conds)@.len() ==> final(conds)@[k] == old(conds)@[k],
        forall|k: int|
            old(conds)@.len() <= k < final(conds)@.len() ==> !((
            #[trigger] final(conds)@[k]) is KeywordLike),
        cmp is None ==> ok && final(conds)@ == old(conds)@,
        cmp matches Some(c) ==> (ok ==> exists|v: u16|
            final(conds)@ == #[trigger] old(conds)@.push(
                FilterCond::Compare(column, *c, FilterValue::SmallInt(v as i16)),
            )),
        !ok ==> final(conds)@ == old(conds)@,
{
    match cmp {
        Some(c) => match rhs {
            Some(w) => match w.value() {
                Some(v) => {
                    conds.push(
                        FilterCond::Compare(
                            column,
                            *c,
                            FilterValue::SmallInt(#[verifier::truncate] (v as i16)),
                        ),
                    );
                    true
                },
                None => false,
            },
            None => false,
        },
        None => true,
    }
}

fn cmp_cond_u32(
    conds: &mut Vec<FilterCond>,
    cmp: &Option<Comparator>,
    rhs: &Option<StringWrapper<u32>>,
    column: &'static str,
) -> (ok: bool)
    ensures
        final(conds)@.len() >= old(conds)@.len(),
        forall|k: int| 0 <= k < old(conds)@.len() ==> final(conds)@[k] == old(conds)@[k],
        forall|k: int|
            old(conds)@.len() <= k < final(conds)@.len() ==> !((
            #[trigger] final(conds)@[k]) is KeywordLike),
        cmp is None ==> ok && final(conds)@ == old(conds)@,
        cmp matches Some(c) ==> (ok ==> exists|v: u32|
            final(conds)@ == #[trigger] old(conds)@.push(
                FilterCond::Compare(column, *c, FilterValue::Int(v as i32)),
            )),
        !ok ==> final(conds)@ == old(conds)@,
{
    match cmp {
        Some(c) => match rhs {
            Some(w) => match w.value() {
                Some(v) => {
                    conds.push(
                        FilterCond::Compare(
                            column,
                            *c,
                            FilterValue::Int(#[verifier::truncate] (v as i32)),
                        ),
                    );
                    true
                },
                None => false,
            },
            None => false,
        },
        None => true,
    }
}

fn cmp_cond_u64(
    conds: &mut Vec<FilterCond>,
    cmp: &Option<Comparator>,
    rhs: &Option<StringWrapper<u64>>,
    column: &'static str,
) -> (ok: bool)
    ensures
        final(conds)@.len() >= old(conds)@.len(),
        forall|k: int| 0 <= k < old(conds)@.len() ==> final(conds)@[k] == old(conds)@[k],
        forall|k: int|
            old(conds)@.len() <= k < final(conds)@.len() ==> !((
            #[trigger] final(conds)@[k]) is KeywordLike),
        cmp is None ==> ok && final(conds)@ == old(conds)@,
        cmp matches Some(c) ==> (ok ==> exists|v: u64|
            final(conds)@ == #[trigger] old(conds)@.push(
                FilterCond::Compare(column, *c, FilterValue::BigInt(v as i64)),
            )),
        !ok ==> final(conds)@ == old(conds)@,
{
    match cmp {
        Some(c) => match rhs {
            Some(w) => match w.value() {
                Some(v) => {
                    conds.push(
                        FilterCond::Compare(
                            column,
                            *c,
                            FilterValue::BigInt(#[verifier::truncate] (v as i64)),
                        ),
                    );
                    true
                },
                None => false,
            },
            None => false,
        },
        None => true,
    }
}

fn eq_flag(
    conds: &mut Vec<FilterCond>,
    rhs: &Option<StringWrapper<bool>>,
    column: &'static str,
) -> (ok: bool)
    ensures
        final(conds)@.len() >= old(conds)@.len(),
        forall|k: int| 0 <= k < old(conds)@.len() ==> final(conds)@[k] == old(conds)@[k],
        forall|k: int|
            old(conds)@.len() <= k < final(conds)@.len() ==> !((
            #[trigger] final(conds)@[k]) is KeywordLike),
        rhs is None ==> ok && final(conds)@ == old(conds)@,
        (rhs is Some && ok) ==> exists|v: bool|
            final(conds)@ == #[trigger] old(conds)@.push(
                FilterCond::Equals(column, FilterValue::Flag(v)),
            ),
        !ok ==> final(conds)@ == old(conds)@,
{
    match rhs {
        Some(w) => match w.value() {
            Some(v) => {
                conds.push(FilterCond::Equals(column, FilterValue::Flag(v)));
                true
            },
            None => false,
        },
        None => true,
    }
}

fn mask_cond_u64(
    conds: &mut Vec<FilterCond>,
    flag: &Option<StringWrapper<u64>>,
    mask: &Option<StringWrapper<u64>>,
    column: &'static str,
) -> (ok: bool)
    ensures
        final(conds)@.len() >= old(conds)@.len(),
        forall|k: int| 0 <= k < old(conds)@.len() ==> final(conds)@[k] == old(conds)@[k],
        forall|k: int|
            old(conds)@.len() <= k < final(conds)@.len() ==> !((
            #[trigger] final(conds)@[k]) is KeywordLike),
        flag is None ==> ok && final(conds)@ == old(conds)@,
        (flag is Some && ok) ==> exists|m: u64, v: u64|
            final(conds)@ == #[trigger] old(conds)@.push(
                FilterCond::MaskMatch(column, m as i64, v as i64),
            ),
        !ok ==> final(conds)@ == old(conds)@,
{
    match flag {
        Some(w) => {
            let v = w.value();
            match v {
                Some(v) => match mask {
                    Some(mw) => match mw.value() {
                        Some(m) => {
                            conds.push(
                                FilterCond::MaskMatch(
                                    column,
                                    #[verifier::truncate] (m as i64),
                                    #[verifier::truncate] (v as i64),
                                ),
                            );
                            true
                        },
                        None => false,
                    },
                    None => false,
                },
                None => false,
            }
        },
        None => true,
    }
}

fn mask_cond_u32(
    conds: &mut Vec<FilterCond>,
    flag: &Option<StringWrapper<u32>>,
    mask: &Option<StringWrapper<u32>>,
    column: &'static str,
) -> (ok: bool)
    ensures
        final(conds)@.len() >= old(conds)@.len(),
        forall|k: int| 0 <= k < old(conds)@.len() ==> final(conds)@[k] == old(conds)@[k],
        forall|k: int|
            old(conds)@.len() <= k < final(conds)@.len() ==> !((
            #[trigger] final(conds)@[k]) is KeywordLike),
        flag is None ==> ok && final(conds)@ == old(conds)@,
        (flag is Some && ok) ==> exists|m: u32, v: u32|
            final(conds)@ == #[trigger] old(conds)@.push(
                FilterCond::MaskMatch(column, m as i64, v as i64),
            ),
        !ok ==> final(conds)@ == old(conds)@,
{
    match flag {
        Some(w) => {
            let v = w.value();
            match v {
                Some(v) => match mask {
                    Some(mw) => match mw.value() {
                        Some(m) => {
                            conds.push(
                                FilterCond::MaskMatch(column, m as i64, v as i64),
                            );
                            true
                        },
                        None => false,
                    },
                    None => false,
                },
                None => false,
            }
        },
        None => true,
    }
}

fn id_mask_cond(
    conds: &mut Vec<FilterCond>,
    id: &Option<String>,
    mask: &Option<String>,
    column: &'static str,
) -> (ok: bool)
    ensures
        final(conds)@.len() >= old(conds)@.len(),
        forall|k: int| 0 <= k < old(conds)@.len() ==> final(conds)@[k] == old(conds)@[k],
        forall|k: int|
            old(conds)@.len() <= k < final(conds)@.len() ==> !((
            #[trigger] final(conds)@[k]) is KeywordLike),
        id is None ==> ok && final(conds)@ == old(conds)@,
        id matches Some(t) ==> (ok ==> (hex_parses(t@, 0x1_0000_0000_0000_0000) && (
        mask matches Some(mt) && hex_parses(mt@, 0x1_0000_0000_0000_0000) && final(conds)@
            == old(conds)@.push(
            FilterCond::MaskMatch(
                column,
                (spec_hex_u64(mt@) as u64) as i64,
                (spec_hex_u64(t@) as u64) as i64,
            ),
        )))),
        !ok ==> final(conds)@ == old(conds)@,
{
    match id {
        Some(id) => {
            let v = parse_hex_u64(id.as_str());
            match v {
                Some(v) => match mask {
                    Some(m) => match parse_hex_u64(m.as_str()) {
                        Some(m) => {
                            conds.push(
                                FilterCond::MaskMatch(
                                    column,
                                    #[verifier::truncate] (m as i64),
                                    #[verifier::truncate] (v as i64),
                                ),
                            );
                            true
                        },
                        None => false,
                    },
                    None => false,
                },
                None => false,
            }
        },
        None => true,
    }
}

fn padded_bytes(text: &str, width: usize) -> (r: Option<Vec<u8>>)
{
    let b = text.as_bytes();
    if b.len() > width {
        return None;
    }
    let mut v = vstd::slice::slice_to_vec(b);
    while v.len() < width
        invariant
            v@.len() <= width,
        decreases width - v@.len(),
    {
        v.push(0);
    }
    Some(v)
}

/// Whether the query enables nothing beyond the keyword search: every
/// typed field filter is absent.
pub open spec fn keyword_only(p: NcchFilterParam) -> bool {
    &&& p.content_size_cmp is None
    &&& p.content_size_rhs is None
    &&& p.partition_id is None
    &&& p.partition_id_mask is None
    &&& p.maker_code is None
    &&& p.ncch_version_cmp is None
    &&& p.ncch_version_rhs is None
    &&& p.program_id is None
    &&& p.program_id_mask is None
    &&& p.product_code is None
    &&& p.secondary_key_slot_cmp is None
    &&& p.secondary_key_slot_rhs is None
    &&& p.platform is None
    &&& p.content_is_data is None
    &&& p.content_is_executable is None
    &&& p.content_category_cmp is None
    &&& p.content_category_rhs is None
    &&& p.content_unit_size_cmp is None
    &&& p.content_unit_size_rhs is None
    &&& p.fixed_key is None
    &&& p.no_romfs is None
    &&& p.no_crypto is None
    &&& p.seed_crypto is None
    &&& p.exheader_name is None
    &&& p.sd_app is None
    &&& p.save_data_size_cmp is None
    &&& p.save_data_size_rhs is None
    &&& p.jump_id is None
    &&& p.jump_id_mask is None
    &&& p.exheader_program_id is None
    &&& p.exheader_program_id_mask is None
    &&& p.core_version_cmp is None
    &&& p.core_version_rhs is None
    &&& p.enable_l2_cache is None
    &&& p.high_cpu_speed is None
    &&& p.system_mode_cmp is None
    &&& p.system_mode_rhs is None
    &&& p.n3ds_system_mode_cmp is None
    &&& p.n3ds_system_mode_rhs is None
    &&& p.ideal_processor_cmp is None
    &&& p.ideal_processor_rhs is None
    &&& p.affinity_mask_cmp is None
    &&& p.affinity_mask_rhs is None
    &&& p.thread_priority_cmp is None
    &&& p.thread_priority_rhs is None
    &&& p.filesystem_flag is None
    &&& p.filesystem_flag_mask is None
    &&& p.resource_limit_category_cmp is None
    &&& p.resource_limit_category_rhs is None
    &&& p.arm9_flag is None
    &&& p.arm9_flag_mask is None
    &&& p.arm9_flag_version is None
    &&& p.region_lockout is None
    &&& p.region_lockout_mask is None
    &&& p.match_maker_id is None
    &&& p.match_maker_bit_id is None
    &&& p.smdh_flag is None
    &&& p.smdh_flag_mask is None
    &&& p.eula_version_cmp is None
    &&& p.eula_version_rhs is None
    &&& p.cec_id is None
}

/// Builds the filter plan from the query parameters, in the order the
/// conditions are applied: the keyword pattern first, then one condition
/// per enabled field. A parameter that is enabled but malformed (a missing
/// companion value or mask, unparsable text, an over-long code) refuses the
/// whole query.
#[verifier::rlimit(100)]
#[verifier::spinoff_prover]
pub fn filter_ncch(param: &NcchFilterParam) -> (r: Result<Vec<FilterCond>, DatabaseError>)
    ensures
        r matches Err(e) ==> e is InvalidParam,
        keyword_only(*param) ==> (r matches Ok(conds) && conds@.len() == (
        if param.keyword is Some {
            1int
        } else {
            0int
        })),
        r matches Ok(conds) ==> (match param.keyword {
            Some(k) => conds@.len() >= 1 && (conds@[0] matches FilterCond::KeywordLike(v) && v@
                == spec_keyword_pattern(k@)),
            None => forall|i: int|
                0 <= i < conds@.len() ==> !((#[trigger] conds@[i]) is KeywordLike),
        }),
{
    let mut conds: Vec<FilterCond> = Vec::new();
    match &param.keyword {
        Some(k) => {
            let pat = keyword_pattern(k.as_str());
            conds.push(FilterCond::KeywordLike(pat));
        },
        None => {},
    }
    if !cmp_cond_u32(&mut conds, &param.content_size_cmp, &param.content_size_rhs, "content_size") {
        return Err(DatabaseError::InvalidParam);
    }
    if !id_mask_cond(&mut conds, &param.partition_id, &param.partition_id_mask, "partition_id") {
        return Err(DatabaseError::InvalidParam);
    }
    match &param.maker_code {
        Some(mc) => {
            let b = mc.as_str().as_bytes();
            if b.len() != 2 {
                return Err(DatabaseError::InvalidParam);
            }
            let lo: u16 = b[0] as u16;
            let hi: u16 = b[1] as u16;
            proof {
                assert(hi < 256 ==> (hi << 8) <= 0xff00) by (bit_vector);
            }
            let code: i16 = #[verifier::truncate] ((lo + (hi << 8)) as i16);
            conds.push(FilterCond::Equals("maker_code", FilterValue::SmallInt(code)));
        },
        None => {},
    }
    if !cmp_cond_u16(&mut conds, &param.ncch_version_cmp, &param.ncch_version_rhs, "ncch_verson") {
        return Err(DatabaseError::InvalidParam);
    }
    if !id_mask_cond(&mut conds, &param.program_id, &param.program_id_mask, "program_id") {
        return Err(DatabaseError::InvalidParam);
    }
    match &param.product_code {
        Some(pc) => match padded_bytes(pc.as_str(), 16) {
            Some(v) => {
                conds.push(FilterCond::Equals("product_code", FilterValue::Bytes(v)));
            },
            None => {
                return Err(DatabaseError::InvalidParam);
            },
        },
        None => {},
    }
    if !cmp_cond_u8(
        &mut conds,
        &param.secondary_key_slot_cmp,
        &param.secondary_key_slot_rhs,
        "secondary_key_slot",
    ) {
        return Err(DatabaseError::InvalidParam);
    }
    match param.platform {
        Some(v) => {
            conds.push(FilterCond::Equals("platform", FilterValue::SmallInt(v as i16)));
        },
        None => {},
    }
    if !eq_flag(&mut conds, &param.content_is_data, "content_is_data") {
        return Err(DatabaseError::InvalidParam);
    }
    if !eq_flag(&mut conds, &param.content_is_executable, "content_is_executable") {
        return Err(DatabaseError::InvalidParam);
    }
    if !cmp_cond_u8(
        &mut conds,
        &param.content_category_cmp,
        &param.content_category_rhs,
        "content_category",
    ) {
        return Err(DatabaseError::InvalidParam);
    }
    if !cmp_cond_u8(
        &mut conds,
        &param.content_unit_size_cmp,
        &param.content_unit_size_rhs,
        "content_unit_size",
    ) {
        return Err(DatabaseError::InvalidParam);
    }
    if !eq_flag(&mut conds, &param.fixed_key, "fixed_key") {
        return Err(DatabaseError::InvalidParam);
    }
    if !eq_flag(&mut conds, &param.no_romfs, "no_romfs") {
        return Err(DatabaseError::InvalidParam);
    }
    if !eq_flag(&mut conds, &param.no_crypto, "no_crypto") {
        return Err(DatabaseError::InvalidParam);
    }
    if !eq_flag(&mut conds, &param.seed_crypto, "seed_crypto") {
        return Err(DatabaseError::InvalidParam);
    }
    match &param.exheader_name {
        Some(n) => match padded_bytes(n.as_str(), 8) {
            Some(v) => {
                conds.push(FilterCond::Equals("exheader_name", FilterValue::Bytes(v)));
            },
            None => {
                return Err(DatabaseError::InvalidParam);
            },
        },
        None => {},
    }
    if !eq_flag(&mut conds, &param.sd_app, "sd_app") {
        return Err(DatabaseError::InvalidParam);
    }
    if !cmp_cond_u64(
        &mut conds,
        &param.save_data_size_cmp,
        &param.save_data_size_rhs,
        "save_data_size",
    ) {
        return Err(DatabaseError::InvalidParam);
    }
    if !id_mask_cond(&mut conds, &param.jump_id, &param.jump_id_mask, "jump_id") {
        return Err(DatabaseError::InvalidParam);
    }
    if !id_mask_cond(
        &mut conds,
        &param.exheader_program_id,
        &param.exheader_program_id_mask,
        "exheader_program_id",
    ) {
        return Err(DatabaseError::InvalidParam);
    }
    if !cmp_cond_u32(&mut conds, &param.core_version_cmp, &param.core_version_rhs, "core_version") {
        return Err(DatabaseError::InvalidParam);
    }
    if !eq_flag(&mut conds, &param.enable_l2_cache, "enable_l2_cache") {
        return Err(DatabaseError::InvalidParam);
    }
    if !eq_flag(&mut conds, &param.high_cpu_speed, "high_cpu_speed") {
        return Err(DatabaseError::InvalidParam);
    }
    if !cmp_cond_u8(&mut conds, &param.system_mode_cmp, &param.system_mode_rhs, "system_mode") {
        return Err(DatabaseError::InvalidParam);
    }
    if !cmp_cond_u8(
        &mut conds,
        &param.n3ds_system_mode_cmp,
        &param.n3ds_system_mode_rhs,
        "n3ds_system_mode",
    ) {
        return Err(DatabaseError::InvalidParam);
    }
    if !cmp_cond_u8(
        &mut conds,
        &param.ideal_processor_cmp,
        &param.ideal_processor_rhs,
        "ideal_processor",
    ) {
        return Err(DatabaseError::InvalidParam);
    }
    if !cmp_cond_u8(
        &mut conds,
        &param.affinity_mask_cmp,
        &param.affinity_mask_rhs,
        "affinity_mask",
    ) {
        return Err(DatabaseError::InvalidParam);
    }
    if !cmp_cond_u8(
        &mut conds,
        &param.thread_priority_cmp,
        &param.thread_priority_rhs,
        "thread_priority",
    ) {
        return Err(DatabaseError::InvalidParam);
    }
    if !mask_cond_u64(
        &mut conds,
        &param.filesystem_flag,
        &param.filesystem_flag_mask,
        "filesystem_flag",
    ) {
        return Err(DatabaseError::InvalidParam);
    }
    if !cmp_cond_u8(
        &mut conds,
        &param.resource_limit_category_cmp,
        &param.resource_limit_category_rhs,
        "resource_limit_category",
    ) {
        return Err(DatabaseError::InvalidParam);
    }
    if !mask_cond_u32(&mut conds, &param.arm9_flag, &param.arm9_flag_mask, "arm9_flag") {
        return Err(DatabaseError::InvalidParam);
    }
    match &param.arm9_flag_version {
        Some(w) => match w.value() {
            Some(v) => {
                conds.push(
                    FilterCond::Equals("arm9_flag_version", FilterValue::SmallInt(v as i16)),
                );
            },
            None => {
                return Err(DatabaseError::InvalidParam);
            },
        },
        None => {},
    }
    if !mask_cond_u32(
        &mut conds,
        &param.region_lockout,
        &param.region_lockout_mask,
        "region_lockout",
    ) {
        return Err(DatabaseError::InvalidParam);
    }
    match &param.match_maker_id {
        Some(t) => match parse_hex_u32(t.as_str()) {
            Some(v) => {
                conds.push(
                    FilterCond::Equals(
                        "match_maker_id",
                        FilterValue::Int(#[verifier::truncate] (v as i32)),
                    ),
                );
            },
            None => {
                return Err(DatabaseError::InvalidParam);
            },
        },
        None => {},
    }
    match &param.match_maker_bit_id {
        Some(t) => match parse_hex_u64(t.as_str()) {
            Some(v) => {
                conds.push(
                    FilterCond::Equals(
                        "match_maker_bit_id",
                        FilterValue::BigInt(#[verifier::truncate] (v as i64)),
                    ),
                );
            },
            None => {
                return Err(DatabaseError::InvalidParam);
            },
        },
        None => {},
    }
    if !mask_cond_u32(&mut conds, &param.smdh_flag, &param.smdh_flag_mask, "smdh_flags") {
        return Err(DatabaseError::InvalidParam);
    }
    if !cmp_cond_u16(&mut conds, &param.eula_version_cmp, &param.eula_version_rhs, "eula_version") {
        return Err(DatabaseError::InvalidParam);
    }
    match &param.cec_id {
        Some(t) => match parse_hex_u32(t.as_str()) {
            Some(v) => {
                conds.push(
                    FilterCond::Equals(
                        "cec_id",
                        FilterValue::Int(#[verifier::truncate] (v as i32)),
                    ),
                );
            },
            None => {
                return Err(DatabaseError::InvalidParam);
            },
        },
        None => {},
    }
    Ok(conds)
}

} // verus!
