//! Character-level text helpers: sentinel trimming, keyword normalization,
//! hexadecimal rendering, and the UTF-16 decoding done by the outside
//! standard library.
use vstd::prelude::*;

verus! {

/// `s` with every trailing occurrence of `x` removed.
pub open spec fn trim_end<T>(s: Seq<T>, x: T) -> Seq<T>
    decreases s.len(),
{
    if s.len() > 0 && s.last() == x {
        trim_end(s.drop_last(), x)
    } else {
        s
    }
}

/// The characters that `String::from_utf16_lossy` decodes from `v`.
pub uninterp spec fn utf16_lossy(v: Seq<u16>) -> Seq<char>;

/// Relies on String::from_utf16_lossy: the decoded characters are a
/// function of the code units alone.
#[verifier::external_body]
pub fn utf16_lossy_chars(v: &[u16]) -> (r: Vec<char>)
    ensures
        r@ == utf16_lossy(v@),
{
    String::from_utf16_lossy(v).chars().collect()
}

/// Relies on String's FromIterator over char: collecting characters yields a
/// string of exactly those characters.
#[verifier::external_body]
pub fn string_from_chars(v: &Vec<char>) -> (r: String)
    ensures
        r@ == v@,
{
    v.iter().collect()
}

/// Relies on str::chars: the characters of a string slice, in order.
#[verifier::external_body]
pub fn str_chars(s: &str) -> (r: Vec<char>)
    ensures
        r@ == s@,
{
    s.chars().collect()
}

/// Relies on String::push_str: appending a slice appends its characters.
#[verifier::external_body]
pub fn append_str(s: &mut String, t: &str)
    ensures
        final(s)@ == old(s)@ + t@,
{
    s.push_str(t)
}

/// ASCII lowercasing of a single character.
pub open spec fn lower_char(c: char) -> char {
    if 'A' <= c && c <= 'Z' {
        (((c as u8) + 32) as char)
    } else {
        c
    }
}

/// Search normalization: ASCII lowercase, then fold the accented e to a
/// plain one and newlines to spaces.
pub open spec fn norm_char(c: char) -> char {
    let l = lower_char(c);
    if l == '\u{e9}' {
        'e'
    } else if l == '\n' {
        ' '
    } else {
        l
    }
}

pub open spec fn spec_normalize(s: Seq<char>) -> Seq<char> {
    s.map(|i: int, c: char| norm_char(c))
}

pub fn normalize_chars(s: &Vec<char>) -> (r: Vec<char>)
    ensures
        r@ == spec_normalize(s@),
{
    let mut r: Vec<char> = Vec::new();
    let mut i: usize = 0;
    while i < s.len()
        invariant
            i <= s@.len(),
            r@.len() == i,
            forall|k: int| 0 <= k < i ==> r@[k] == norm_char(s@[k]),
        decreases s@.len() - i,
    {
        let c = s[i];
        let l = if 'A' <= c && c <= 'Z' {
            ((c as u8) + 32) as char
        } else {
            c
        };
        let n = if l == '\u{e9}' {
            'e'
        } else if l == '\n' {
            ' '
        } else {
            l
        };
        r.push(n);
        i = i + 1;
    }
    proof {
        assert(r@ =~= spec_normalize(s@));
    }
    r
}

/// The lowercase hexadecimal digit for the value `x` (0 to 15).
pub open spec fn hex_digit(x: int) -> char {
    if x < 10 {
        ((0x30 + x) as u8) as char
    } else {
        ((0x61 + (x - 10)) as u8) as char
    }
}

/// The 16 lowercase hexadecimal digits of `x`, most significant first.
pub open spec fn hex64(x: u64) -> Seq<char> {
    Seq::new(16, |i: int| hex_digit(((x >> ((4 * (15 - i)) as u64)) & 0xf) as int))
}

pub fn hex_u64_chars(x: u64) -> (r: Vec<char>)
    ensures
        r@ == hex64(x),
{
    let mut r: Vec<char> = Vec::new();
    let mut i: usize = 0;
    while i < 16
        invariant
            i <= 16,
            r@.len() == i,
            forall|k: int| 0 <= k < i ==> r@[k] == hex64(x)[k],
        decreases 16 - i,
    {
        let shift: u64 = (4 * (15 - i)) as u64;
        let nib: u64 = (x >> shift) & 0xf;
        proof {
            let s = shift;
            assert((x >> s) & 0xf < 16) by (bit_vector);
        }
        let c: char = if nib < 10 {
            ((0x30u8 + (nib as u8)) as char)
        } else {
            ((0x61u8 + ((nib - 10) as u8)) as char)
        };
        r.push(c);
        i = i + 1;
    }
    proof {
        assert(r@ =~= hex64(x));
    }
    r
}

/// The 8 lowercase hexadecimal digits of `x`, most significant first.
pub open spec fn hex32(x: u32) -> Seq<char> {
    Seq::new(8, |i: int| hex_digit(((x >> ((4 * (7 - i)) as u32)) & 0xf) as int))
}

pub fn hex_u32_chars(x: u32) -> (r: Vec<char>)
    ensures
        r@ == hex32(x),
{
    let mut r: Vec<char> = Vec::new();
    let mut i: usize = 0;
    while i < 8
        invariant
            i <= 8,
            r@.len() == i,
            forall|k: int| 0 <= k < i ==> r@[k] == hex32(x)[k],
        decreases 8 - i,
    {
        let shift: u32 = (4 * (7 - i)) as u32;
        let nib: u32 = (x >> shift) & 0xf;
        proof {
            let s = shift;
            assert((x >> s) & 0xf < 16) by (bit_vector);
        }
        let c: char = if nib < 10 {
            ((0x30u8 + (nib as u8)) as char)
        } else {
            ((0x61u8 + ((nib - 10) as u8)) as char)
        };
        r.push(c);
        i = i + 1;
    }
    proof {
        assert(r@ =~= hex32(x));
    }
    r
}

/// Two lowercase hexadecimal digits for each byte of `s`, in order.
pub open spec fn hex_bytes(s: Seq<u8>) -> Seq<char> {
    Seq::new(
        2 * s.len(),
        |i: int|
            if i % 2 == 0 {
                hex_digit((s[i / 2] >> 4) as int)
            } else {
                hex_digit((s[i / 2] & 0xf) as int)
            },
    )
}

pub fn hex_bytes_chars(s: &[u8]) -> (r: Vec<char>)
    ensures
        r@ == hex_bytes(s@),
{
    let _n: usize = s.len();
    let mut r: Vec<char> = Vec::new();
    let mut i: usize = 0;
    while i < s.len()
        invariant
            i <= s@.len(),
            r@.len() == 2 * i,
            forall|k: int| 0 <= k < 2 * i ==> r@[k] == hex_bytes(s@)[k],
        decreases s@.len() - i,
    {
        let b = s[i];
        let hi: u8 = b >> 4;
        let lo: u8 = b & 0xf;
        proof {
            assert(b >> 4 < 16 && (b & 0xf) < 16) by (bit_vector);
        }
        let c1: char = if hi < 10 {
            ((0x30u8 + hi) as char)
        } else {
            ((0x61u8 + (hi - 10)) as char)
        };
        let c2: char = if lo < 10 {
            ((0x30u8 + lo) as char)
        } else {
            ((0x61u8 + (lo - 10)) as char)
        };
        r.push(c1);
        r.push(c2);
        i = i + 1;
    }
    proof {
        assert(r@ =~= hex_bytes(s@));
    }
    r
}

pub fn trim_u8(x: u8, s: &[u8]) -> (r: Vec<u8>)
    ensures
        r@ == trim_end(s@, x),
{
    let _n: usize = s.len();
    let mut n: usize = s.len();
    proof {
        assert(s@.take(n as int) =~= s@);
    }
    while n > 0 && s[n - 1] == x
        invariant
            n <= s@.len(),
            trim_end(s@, x) == trim_end(s@.take(n as int), x),
        decreases n,
    {
        proof {
            assert(s@.take(n as int).drop_last() =~= s@.take(n - 1));
        }
        n = n - 1;
    }
    proof {
        assert(trim_end(s@.take(n as int), x) == s@.take(n as int));
    }
    let r = vstd::slice::slice_to_vec(vstd::slice::slice_subrange(s, 0, n));
    proof {
        assert(r@ =~= s@.take(n as int));
    }
    r
}

pub fn trim_u16(x: u16, s: &[u16]) -> (r: Vec<u16>)
    ensures
        r@ == trim_end(s@, x),
{
    let _n: usize = s.len();
    let mut n: usize = s.len();
    proof {
        assert(s@.take(n as int) =~= s@);
    }
    while n > 0 && s[n - 1] == x
        invariant
            n <= s@.len(),
            trim_end(s@, x) == trim_end(s@.take(n as int), x),
        decreases n,
    {
        proof {
            assert(s@.take(n as int).drop_last() =~= s@.take(n - 1));
        }
        n = n - 1;
    }
    proof {
        assert(trim_end(s@.take(n as int), x) == s@.take(n as int));
    }
    let r = vstd::slice::slice_to_vec(vstd::slice::slice_subrange(s, 0, n));
    proof {
        assert(r@ =~= s@.take(n as int));
    }
    r
}

pub fn trim_i16(x: i16, s: &[i16]) -> (r: Vec<i16>)
    ensures
        r@ == trim_end(s@, x),
{
    let _n: usize = s.len();
    let mut n: usize = s.len();
    proof {
        assert(s@.take(n as int) =~= s@);
    }
    while n > 0 && s[n - 1] == x
        invariant
            n <= s@.len(),
            trim_end(s@, x) == trim_end(s@.take(n as int), x),
        decreases n,
    {
        proof {
            assert(s@.take(n as int).drop_last() =~= s@.take(n - 1));
        }
        n = n - 1;
    }
    proof {
        assert(trim_end(s@.take(n as int), x) == s@.take(n as int));
    }
    let r = vstd::slice::slice_to_vec(vstd::slice::slice_subrange(s, 0, n));
    proof {
        assert(r@ =~= s@.take(n as int));
    }
    r
}

pub fn trim_i32(x: i32, s: &[i32]) -> (r: Vec<i32>)
    ensures
        r@ == trim_end(s@, x),
{
    let _n: usize = s.len();
    let mut n: usize = s.len();
    proof {
        assert(s@.take(n as int) =~= s@);
    }
    while n > 0 && s[n - 1] == x
        invariant
            n <= s@.len(),
            trim_end(s@, x) == trim_end(s@.take(n as int), x),
        decreases n,
    {
        proof {
            assert(s@.take(n as int).drop_last() =~= s@.take(n - 1));
        }
        n = n - 1;
    }
    proof {
        assert(trim_end(s@.take(n as int), x) == s@.take(n as int));
    }
    let r = vstd::slice::slice_to_vec(vstd::slice::slice_subrange(s, 0, n));
    proof {
        assert(r@ =~= s@.take(n as int));
    }
    r
}

pub fn trim_i64(x: i64, s: &[i64]) -> (r: Vec<i64>)
    ensures
        r@ == trim_end(s@, x),
{
    let _n: usize = s.len();
    let mut n: usize = s.len();
    proof {
        assert(s@.take(n as int) =~= s@);
    }
    while n > 0 && s[n - 1] == x
        invariant
            n <= s@.len(),
            trim_end(s@, x) == trim_end(s@.take(n as int), x),
        decreases n,
    {
        proof {
            assert(s@.take(n as int).drop_last() =~= s@.take(n - 1));
        }
        n = n - 1;
    }
    proof {
        assert(trim_end(s@.take(n as int), x) == s@.take(n as int));
    }
    let r = vstd::slice::slice_to_vec(vstd::slice::slice_subrange(s, 0, n));
    proof {
        assert(r@ =~= s@.take(n as int));
    }
    r
}

/// The Latin-1 reading of a zero-trimmed byte string.
pub open spec fn spec_convert_string(s: Seq<u8>) -> Seq<char> {
    trim_end(s, 0u8).map(|i: int, b: u8| b as char)
}

pub fn convert_string_chars(s: &[u8]) -> (r: Vec<char>)
    ensures
        r@ == spec_convert_string(s@),
{
    let t = trim_u8(0, s);
    let mut cs: Vec<char> = Vec::new();
    let mut i: usize = 0;
    while i < t.len()
        invariant
            i <= t@.len(),
            cs@.len() == i,
            forall|k: int| 0 <= k < i ==> cs@[k] == (t@[k] as char),
        decreases t@.len() - i,
    {
        cs.push(t[i] as char);
        i = i + 1;
    }
    proof {
        assert(cs@ =~= spec_convert_string(s@));
    }
    cs
}

pub fn convert_string(s: &[u8]) -> (r: String)
    ensures
        r@ == spec_convert_string(s@),
{
    let cs = convert_string_chars(s);
    string_from_chars(&cs)
}

/// The UTF-16 reading of a zero-trimmed code-unit string.
pub open spec fn spec_convert_string16(s: Seq<u16>) -> Seq<char> {
    utf16_lossy(trim_end(s, 0u16))
}

pub fn convert_string16_chars(s: &[u16]) -> (r: Vec<char>)
    ensures
        r@ == spec_convert_string16(s@),
{
    let t = trim_u16(0, s);
    utf16_lossy_chars(t.as_slice())
}

pub fn convert_string16(s: &[u16]) -> (r: String)
    ensures
        r@ == spec_convert_string16(s@),
{
    let cs = convert_string16_chars(s);
    string_from_chars(&cs)
}

} // verus!
