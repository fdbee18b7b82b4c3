//! Little-endian readers and writers over byte buffers, with the spec-level
//! serialization helpers shared by the fixed-layout container structures.
use vstd::bytes::*;
use vstd::prelude::*;
use vstd::slice::*;

verus! {

/// The `u16` stored little-endian at byte offset `off` of `b`.
pub open spec fn le16_at(b: Seq<u8>, off: int) -> u16 {
    spec_u16_from_le_bytes(b.subrange(off, off + 2))
}

/// The `u32` stored little-endian at byte offset `off` of `b`.
pub open spec fn le32_at(b: Seq<u8>, off: int) -> u32 {
    spec_u32_from_le_bytes(b.subrange(off, off + 4))
}

/// The `u64` stored little-endian at byte offset `off` of `b`.
pub open spec fn le64_at(b: Seq<u8>, off: int) -> u64 {
    spec_u64_from_le_bytes(b.subrange(off, off + 8))
}

pub proof fn lemma_le16_rt(b: Seq<u8>, off: int)
    requires
        0 <= off,
        off + 2 <= b.len(),
    ensures
        spec_u16_to_le_bytes(le16_at(b, off)) == b.subrange(off, off + 2),
{
    lemma_auto_spec_u16_to_from_le_bytes();
}

pub proof fn lemma_le32_rt(b: Seq<u8>, off: int)
    requires
        0 <= off,
        off + 4 <= b.len(),
    ensures
        spec_u32_to_le_bytes(le32_at(b, off)) == b.subrange(off, off + 4),
{
    lemma_auto_spec_u32_to_from_le_bytes();
}

pub proof fn lemma_le64_rt(b: Seq<u8>, off: int)
    requires
        0 <= off,
        off + 8 <= b.len(),
    ensures
        spec_u64_to_le_bytes(le64_at(b, off)) == b.subrange(off, off + 8),
{
    lemma_auto_spec_u64_to_from_le_bytes();
}

/// Two adjacent subranges concatenate to the enclosing subrange.
pub proof fn lemma_concat_sub(b: Seq<u8>, i: int, j: int, k: int)
    requires
        0 <= i <= j <= k <= b.len(),
    ensures
        b.subrange(i, j) + b.subrange(j, k) == b.subrange(i, k),
{
    assert(b.subrange(i, j) + b.subrange(j, k) =~= b.subrange(i, k));
}

pub fn get_u16(data: &[u8], off: usize) -> (r: u16)
    requires
        off + 2 <= data@.len(),
    ensures
        r == le16_at(data@, off as int),
{
    let _n: usize = data.len();
    u16_from_le_bytes(slice_subrange(data, off, off + 2))
}

pub fn get_u32(data: &[u8], off: usize) -> (r: u32)
    requires
        off + 4 <= data@.len(),
    ensures
        r == le32_at(data@, off as int),
{
    let _n: usize = data.len();
    u32_from_le_bytes(slice_subrange(data, off, off + 4))
}

pub fn get_u64(data: &[u8], off: usize) -> (r: u64)
    requires
        off + 8 <= data@.len(),
    ensures
        r == le64_at(data@, off as int),
{
    let _n: usize = data.len();
    u64_from_le_bytes(slice_subrange(data, off, off + 8))
}

pub fn get_bytes(data: &[u8], off: usize, n: usize) -> (r: Vec<u8>)
    requires
        off + n <= data@.len(),
    ensures
        r@ == data@.subrange(off as int, off + n),
{
    let _n: usize = data.len();
    slice_to_vec(slice_subrange(data, off, off + n))
}

pub fn get_u16s(data: &[u8], off: usize, n: usize) -> (r: Vec<u16>)
    requires
        off + 2 * n <= data@.len(),
    ensures
        r@.len() == n,
        forall|k: int| 0 <= k < n ==> r@[k] == le16_at(data@, off + 2 * k),
{
    let _n: usize = data.len();
    let mut r: Vec<u16> = Vec::new();
    let mut i: usize = 0;
    while i < n
        invariant
            i <= n,
            off + 2 * n <= data@.len(),
            data@.len() <= usize::MAX,
            r@.len() == i,
            forall|k: int| 0 <= k < i ==> r@[k] == le16_at(data@, off + 2 * k),
        decreases n - i,
    {
        r.push(get_u16(data, off + 2 * i));
        i = i + 1;
    }
    r
}

pub fn get_u32s(data: &[u8], off: usize, n: usize) -> (r: Vec<u32>)
    requires
        off + 4 * n <= data@.len(),
    ensures
        r@.len() == n,
        forall|k: int| 0 <= k < n ==> r@[k] == le32_at(data@, off + 4 * k),
{
    let _n: usize = data.len();
    let mut r: Vec<u32> = Vec::new();
    let mut i: usize = 0;
    while i < n
        invariant
            i <= n,
            off + 4 * n <= data@.len(),
            data@.len() <= usize::MAX,
            r@.len() == i,
            forall|k: int| 0 <= k < i ==> r@[k] == le32_at(data@, off + 4 * k),
        decreases n - i,
    {
        r.push(get_u32(data, off + 4 * i));
        i = i + 1;
    }
    r
}

pub fn get_u64s(data: &[u8], off: usize, n: usize) -> (r: Vec<u64>)
    requires
        off + 8 * n <= data@.len(),
    ensures
        r@.len() == n,
        forall|k: int| 0 <= k < n ==> r@[k] == le64_at(data@, off + 8 * k),
{
    let _n: usize = data.len();
    let mut r: Vec<u64> = Vec::new();
    let mut i: usize = 0;
    while i < n
        invariant
            i <= n,
            off + 8 * n <= data@.len(),
            data@.len() <= usize::MAX,
            r@.len() == i,
            forall|k: int| 0 <= k < i ==> r@[k] == le64_at(data@, off + 8 * k),
        decreases n - i,
    {
        r.push(get_u64(data, off + 8 * i));
        i = i + 1;
    }
    r
}

pub fn get_rows(data: &[u8], off: usize, n: usize, w: usize) -> (r: Vec<Vec<u8>>)
    requires
        off + n * w <= data@.len(),
    ensures
        r@.len() == n,
        forall|k: int| 0 <= k < n ==> (#[trigger] r@[k])@ == data@.subrange(
            off + k * w,
            off + (k + 1) * w,
        ),
{
    let _n: usize = data.len();
    let mut r: Vec<Vec<u8>> = Vec::new();
    let mut i: usize = 0;
    while i < n
        invariant
            i <= n,
            off + n * w <= data@.len(),
            data@.len() <= usize::MAX,
            r@.len() == i,
            forall|k: int| 0 <= k < i ==> (#[trigger] r@[k])@ == data@.subrange(
                off + k * w,
                off + (k + 1) * w,
            ),
        decreases n - i,
    {
        proof {
            assert(off + (i + 1) * w <= off + n * w) by (nonlinear_arith)
                requires
                    i < n,
                    0 <= w,
            ;
            assert((i + 1) * w == i * w + w && 0 <= i * w) by (nonlinear_arith)
                requires
                    0 <= i,
                    0 <= w,
            ;
        }
        r.push(get_bytes(data, off + i * w, w));
        i = i + 1;
    }
    r
}

pub fn put_u16(out: &mut Vec<u8>, x: u16)
    ensures
        final(out)@ == old(out)@ + spec_u16_to_le_bytes(x),
{
    let mut t = u16_to_le_bytes(x);
    out.append(&mut t);
}

pub fn put_u32(out: &mut Vec<u8>, x: u32)
    ensures
        final(out)@ == old(out)@ + spec_u32_to_le_bytes(x),
{
    let mut t = u32_to_le_bytes(x);
    out.append(&mut t);
}

pub fn put_u64(out: &mut Vec<u8>, x: u64)
    ensures
        final(out)@ == old(out)@ + spec_u64_to_le_bytes(x),
{
    let mut t = u64_to_le_bytes(x);
    out.append(&mut t);
}

pub fn put_bytes(out: &mut Vec<u8>, v: &Vec<u8>)
    ensures
        final(out)@ == old(out)@ + v@,
{
    out.extend_from_slice(v.as_slice());
}

pub fn put_byte(out: &mut Vec<u8>, x: u8)
    ensures
        final(out)@ == old(out)@ + seq![x],
{
    out.push(x);
    proof {
        assert(old(out)@.push(x) =~= old(out)@ + seq![x]);
    }
}

/// The little-endian serialization of a sequence of `u16` values.
pub open spec fn ser_u16s(v: Seq<u16>) -> Seq<u8>
    decreases v.len(),
{
    if v.len() == 0 {
        Seq::empty()
    } else {
        ser_u16s(v.drop_last()) + spec_u16_to_le_bytes(v.last())
    }
}

/// The little-endian serialization of a sequence of `u32` values.
pub open spec fn ser_u32s(v: Seq<u32>) -> Seq<u8>
    decreases v.len(),
{
    if v.len() == 0 {
        Seq::empty()
    } else {
        ser_u32s(v.drop_last()) + spec_u32_to_le_bytes(v.last())
    }
}

/// The little-endian serialization of a sequence of `u64` values.
pub open spec fn ser_u64s(v: Seq<u64>) -> Seq<u8>
    decreases v.len(),
{
    if v.len() == 0 {
        Seq::empty()
    } else {
        ser_u64s(v.drop_last()) + spec_u64_to_le_bytes(v.last())
    }
}

/// The concatenation of a sequence of byte rows.
pub open spec fn ser_rows(v: Seq<Vec<u8>>) -> Seq<u8>
    decreases v.len(),
{
    if v.len() == 0 {
        Seq::empty()
    } else {
        ser_rows(v.drop_last()) + v.last()@
    }
}

pub proof fn lemma_ser_u16s_rt(v: Seq<u16>, b: Seq<u8>, off: int, n: int)
    requires
        0 <= off,
        n >= 0,
        off + 2 * n <= b.len(),
        v.len() == n,
        forall|k: int| 0 <= k < n ==> v[k] == le16_at(b, off + 2 * k),
    ensures
        ser_u16s(v) == b.subrange(off, off + 2 * n),
    decreases n,
{
    if n == 0 {
        assert(ser_u16s(v) =~= b.subrange(off, off));
    } else {
        let t = v.drop_last();
        lemma_ser_u16s_rt(t, b, off, n - 1);
        assert(v.last() == le16_at(b, off + 2 * (n - 1)));
        lemma_le16_rt(b, off + 2 * (n - 1));
        lemma_concat_sub(b, off, off + 2 * (n - 1), off + 2 * n);
    }
}

pub proof fn lemma_ser_u32s_rt(v: Seq<u32>, b: Seq<u8>, off: int, n: int)
    requires
        0 <= off,
        n >= 0,
        off + 4 * n <= b.len(),
        v.len() == n,
        forall|k: int| 0 <= k < n ==> v[k] == le32_at(b, off + 4 * k),
    ensures
        ser_u32s(v) == b.subrange(off, off + 4 * n),
    decreases n,
{
    if n == 0 {
        assert(ser_u32s(v) =~= b.subrange(off, off));
    } else {
        let t = v.drop_last();
        lemma_ser_u32s_rt(t, b, off, n - 1);
        assert(v.last() == le32_at(b, off + 4 * (n - 1)));
        lemma_le32_rt(b, off + 4 * (n - 1));
        lemma_concat_sub(b, off, off + 4 * (n - 1), off + 4 * n);
    }
}

pub proof fn lemma_ser_u64s_rt(v: Seq<u64>, b: Seq<u8>, off: int, n: int)
    requires
        0 <= off,
        n >= 0,
        off + 8 * n <= b.len(),
        v.len() == n,
        forall|k: int| 0 <= k < n ==> v[k] == le64_at(b, off + 8 * k),
    ensures
        ser_u64s(v) == b.subrange(off, off + 8 * n),
    decreases n,
{
    if n == 0 {
        assert(ser_u64s(v) =~= b.subrange(off, off));
    } else {
        let t = v.drop_last();
        lemma_ser_u64s_rt(t, b, off, n - 1);
        assert(v.last() == le64_at(b, off + 8 * (n - 1)));
        lemma_le64_rt(b, off + 8 * (n - 1));
        lemma_concat_sub(b, off, off + 8 * (n - 1), off + 8 * n);
    }
}

pub proof fn lemma_ser_rows_rt(v: Seq<Vec<u8>>, b: Seq<u8>, off: int, n: int, w: int)
    requires
        0 <= off,
        n >= 0,
        w >= 0,
        off + n * w <= b.len(),
        v.len() == n,
        forall|k: int| 0 <= k < n ==> (#[trigger] v[k])@ == b.subrange(
            off + k * w,
            off + (k + 1) * w,
        ),
    ensures
        ser_rows(v) == b.subrange(off, off + n * w),
    decreases n,
{
    if n == 0 {
        assert(ser_rows(v) =~= b.subrange(off, off));
    } else {
        let t = v.drop_last();
        assert((n - 1) * w <= n * w && 0 <= (n - 1) * w) by (nonlinear_arith)
            requires
                n >= 1,
                w >= 0,
        ;
        lemma_ser_rows_rt(t, b, off, n - 1, w);
        assert(v[n - 1]@ == b.subrange(off + (n - 1) * w, off + n * w));
        lemma_concat_sub(b, off, off + (n - 1) * w, off + n * w);
    }
}

pub proof fn lemma_ser_u16s_len(v: Seq<u16>)
    ensures
        ser_u16s(v).len() == 2 * v.len(),
    decreases v.len(),
{
    lemma_auto_spec_u16_to_from_le_bytes();
    if v.len() > 0 {
        lemma_ser_u16s_len(v.drop_last());
    }
}

pub proof fn lemma_ser_u32s_len(v: Seq<u32>)
    ensures
        ser_u32s(v).len() == 4 * v.len(),
    decreases v.len(),
{
    lemma_auto_spec_u32_to_from_le_bytes();
    if v.len() > 0 {
        lemma_ser_u32s_len(v.drop_last());
    }
}

pub proof fn lemma_ser_u64s_len(v: Seq<u64>)
    ensures
        ser_u64s(v).len() == 8 * v.len(),
    decreases v.len(),
{
    lemma_auto_spec_u64_to_from_le_bytes();
    if v.len() > 0 {
        lemma_ser_u64s_len(v.drop_last());
    }
}

pub proof fn lemma_ser_rows_len(v: Seq<Vec<u8>>, w: int)
    requires
        forall|k: int| 0 <= k < v.len() ==> (#[trigger] v[k])@.len() == w,
    ensures
        ser_rows(v).len() == v.len() * w,
    decreases v.len(),
{
    if v.len() == 0 {
    } else {
        lemma_ser_rows_len(v.drop_last(), w);
        assert((v.len() - 1) * w + w == v.len() * w) by (nonlinear_arith);
    }
}

pub proof fn lemma_ser_u16s_push(v: Seq<u16>, x: u16)
    ensures
        ser_u16s(v.push(x)) == ser_u16s(v) + spec_u16_to_le_bytes(x),
{
    assert(v.push(x).drop_last() =~= v);
    assert(v.push(x).last() == x);
}

pub proof fn lemma_ser_u32s_push(v: Seq<u32>, x: u32)
    ensures
        ser_u32s(v.push(x)) == ser_u32s(v) + spec_u32_to_le_bytes(x),
{
    assert(v.push(x).drop_last() =~= v);
    assert(v.push(x).last() == x);
}

pub proof fn lemma_ser_u64s_push(v: Seq<u64>, x: u64)
    ensures
        ser_u64s(v.push(x)) == ser_u64s(v) + spec_u64_to_le_bytes(x),
{
    assert(v.push(x).drop_last() =~= v);
    assert(v.push(x).last() == x);
}

pub proof fn lemma_ser_rows_push(v: Seq<Vec<u8>>, x: Vec<u8>)
    ensures
        ser_rows(v.push(x)) == ser_rows(v) + x@,
{
    assert(v.push(x).drop_last() =~= v);
    assert(v.push(x).last() == x);
}

pub fn put_u16s(out: &mut Vec<u8>, v: &Vec<u16>)
    ensures
        final(out)@ == old(out)@ + ser_u16s(v@),
{
    let mut i: usize = 0;
    while i < v.len()
        invariant
            i <= v@.len(),
            out@ == old(out)@ + ser_u16s(v@.take(i as int)),
        decreases v@.len() - i,
    {
        proof {
            assert(v@.take(i + 1) =~= v@.take(i as int).push(v@[i as int]));
            lemma_ser_u16s_push(v@.take(i as int), v@[i as int]);
        }
        put_u16(out, v[i]);
        i = i + 1;
    }
    proof {
        assert(v@.take(v@.len() as int) =~= v@);
    }
}

pub fn put_u32s(out: &mut Vec<u8>, v: &Vec<u32>)
    ensures
        final(out)@ == old(out)@ + ser_u32s(v@),
{
    let mut i: usize = 0;
    while i < v.len()
        invariant
            i <= v@.len(),
            out@ == old(out)@ + ser_u32s(v@.take(i as int)),
        decreases v@.len() - i,
    {
        proof {
            assert(v@.take(i + 1) =~= v@.take(i as int).push(v@[i as int]));
            lemma_ser_u32s_push(v@.take(i as int), v@[i as int]);
        }
        put_u32(out, v[i]);
        i = i + 1;
    }
    proof {
        assert(v@.take(v@.len() as int) =~= v@);
    }
}

pub fn put_u64s(out: &mut Vec<u8>, v: &Vec<u64>)
    ensures
        final(out)@ == old(out)@ + ser_u64s(v@),
{
    let mut i: usize = 0;
    while i < v.len()
        invariant
            i <= v@.len(),
            out@ == old(out)@ + ser_u64s(v@.take(i as int)),
        decreases v@.len() - i,
    {
        proof {
            assert(v@.take(i + 1) =~= v@.take(i as int).push(v@[i as int]));
            lemma_ser_u64s_push(v@.take(i as int), v@[i as int]);
        }
        put_u64(out, v[i]);
        i = i + 1;
    }
    proof {
        assert(v@.take(v@.len() as int) =~= v@);
    }
}

pub fn put_rows(out: &mut Vec<u8>, v: &Vec<Vec<u8>>)
    ensures
        final(out)@ == old(out)@ + ser_rows(v@),
{
    let mut i: usize = 0;
    while i < v.len()
        invariant
            i <= v@.len(),
            out@ == old(out)@ + ser_rows(v@.take(i as int)),
        decreases v@.len() - i,
    {
        proof {
            assert(v@.take(i + 1) =~= v@.take(i as int).push(v@[i as int]));
            lemma_ser_rows_push(v@.take(i as int), v@[i as int]);
        }
        put_bytes(out, &v[i]);
        i = i + 1;
    }
    proof {
        assert(v@.take(v@.len() as int) =~= v@);
    }
}

} // verus!
