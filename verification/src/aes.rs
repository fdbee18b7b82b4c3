//! AES-128-CTR streaming decryption (through the outside cipher crate) and
//! the 128-bit key scrambler that derives per-title keys.
use aes_ctr::cipher::generic_array::GenericArray;
use aes_ctr::cipher::stream::{NewStreamCipher, SyncStreamCipher, SyncStreamCipherSeek};
use vstd::prelude::*;

verus! {

/// Byte `i` of a 128-bit big-endian value rotated left by `rot` bits.
///
/// `rot / 8` whole bytes of shift plus `rot % 8` bits borrowed from the next
/// byte; a bit shift of zero must leave the byte untouched (a right shift by
/// eight would not be defined on a byte).
pub open spec fn lrot_byte(a: Seq<u8>, rot: int, i: int) -> u8 {
    let bsh = rot / 8;
    let bit = (rot % 8) as u8;
    let wa = a[(i + bsh) % 16];
    let wb = a[(i + bsh + 1) % 16];
    if bit == 0 {
        wa
    } else {
        (wa << bit) | (wb >> (8 - bit))
    }
}

/// A 128-bit value (as 16 big-endian bytes) rotated left by `rot` bits.
pub open spec fn spec_lrot128(a: Seq<u8>, rot: int) -> Seq<u8> {
    Seq::new(16, |i: int| lrot_byte(a, rot, i))
}

/// The carry into byte `i` of the big-endian byte-wise sum of `a` and `b`
/// (byte 15 is least significant and receives no carry).
pub open spec fn add128_carry(a: Seq<u8>, b: Seq<u8>, i: int) -> int
    decreases 16 - i,
{
    if i >= 15 {
        0
    } else {
        if a[i + 1] + b[i + 1] + add128_carry(a, b, i + 1) >= 256 {
            1
        } else {
            0
        }
    }
}

/// Big-endian 128-bit addition with the final carry discarded.
pub open spec fn spec_add128(a: Seq<u8>, b: Seq<u8>) -> Seq<u8> {
    Seq::new(16, |i: int| ((a[i] + b[i] + add128_carry(a, b, i)) % 256) as u8)
}

/// Byte-wise XOR of two 128-bit values.
pub open spec fn spec_xor128(a: Seq<u8>, b: Seq<u8>) -> Seq<u8> {
    Seq::new(16, |i: int| a[i] ^ b[i])
}

/// The fixed permutation combining a slot constant `x`, a per-title value
/// `y` and the scrambler constant `c` into an AES key.
pub open spec fn spec_scramble(x: Seq<u8>, y: Seq<u8>, c: Seq<u8>) -> Seq<u8> {
    spec_lrot128(spec_add128(spec_xor128(spec_lrot128(x, 2), y), c), 87)
}

pub fn lrot128(a: &[u8], rot: usize) -> (r: Vec<u8>)
    requires
        a@.len() == 16,
        rot < 128,
    ensures
        r@ == spec_lrot128(a@, rot as int),
{
    let byte_shift: usize = rot / 8;
    let bit_shift: usize = rot % 8;
    let mut out: Vec<u8> = Vec::new();
    let mut i: usize = 0;
    while i < 16
        invariant
            i <= 16,
            a@.len() == 16,
            byte_shift == rot / 8,
            bit_shift == rot % 8,
            rot < 128,
            out@.len() == i,
            forall|k: int| 0 <= k < i ==> out@[k] == lrot_byte(a@, rot as int, k),
        decreases 16 - i,
    {
        let wrap_index_a = (i + byte_shift) % 16;
        let wrap_index_b = (i + byte_shift + 1) % 16;
        let o = if bit_shift == 0 {
            a[wrap_index_a]
        } else {
            (a[wrap_index_a] << bit_shift) | (a[wrap_index_b] >> (8 - bit_shift))
        };
        out.push(o);
        i = i + 1;
    }
    proof {
        assert(out@ =~= spec_lrot128(a@, rot as int));
    }
    out
}

pub fn add128(a: &[u8], b: &[u8]) -> (r: Vec<u8>)
    requires
        a@.len() == 16,
        b@.len() == 16,
    ensures
        r@ == spec_add128(a@, b@),
{
    let mut out: Vec<u8> = vec![0u8; 16];
    let mut carry: u32 = 0;
    let mut i: usize = 16;
    while i > 0
        invariant
            i <= 16,
            a@.len() == 16,
            b@.len() == 16,
            out@.len() == 16,
            carry == if i == 16 {
                0int
            } else {
                add128_carry(a@, b@, i - 1)
            },
            forall|k: int|
                i <= k < 16 ==> out@[k] == ((a@[k] + b@[k] + add128_carry(a@, b@, k)) % 256) as u8,
        decreases i,
    {
        i = i - 1;
        let sum: u32 = (a[i] as u32) + (b[i] as u32) + carry;
        carry = sum >> 8;
        out.set(i, (sum & 0xff) as u8);
        proof {
            let s = a@[i as int] + b@[i as int] + add128_carry(a@, b@, i as int);
            assert(s == sum);
            assert(sum >> 8 == sum / 256 && sum & 0xff == sum % 256) by (bit_vector);
            assert(carry == if s >= 256 { 1int } else { 0int });
            if i > 0 {
                assert(add128_carry(a@, b@, i - 1) == if s >= 256 { 1int } else { 0int });
            }
        }
    }
    proof {
        assert(out@ =~= spec_add128(a@, b@));
    }
    out
}

pub fn xor128(a: &[u8], b: &[u8]) -> (r: Vec<u8>)
    requires
        a@.len() == 16,
        b@.len() == 16,
    ensures
        r@ == spec_xor128(a@, b@),
{
    let mut out: Vec<u8> = Vec::new();
    let mut i: usize = 0;
    while i < 16
        invariant
            i <= 16,
            a@.len() == 16,
            b@.len() == 16,
            out@.len() == i,
            forall|k: int| 0 <= k < i ==> out@[k] == (a@[k] ^ b@[k]),
        decreases 16 - i,
    {
        out.push(a[i] ^ b[i]);
        i = i + 1;
    }
    proof {
        assert(out@ =~= spec_xor128(a@, b@));
    }
    out
}

pub fn scramble(x: &[u8], y: &[u8], c: &[u8]) -> (r: Vec<u8>)
    requires
        x@.len() == 16,
        y@.len() == 16,
        c@.len() == 16,
    ensures
        r@ == spec_scramble(x@, y@, c@),
{
    let rx = lrot128(x, 2);
    let xo = xor128(rx.as_slice(), y);
    let ad = add128(xo.as_slice(), c);
    lrot128(ad.as_slice(), 87)
}

/// The title key for the per-title value `y`, under the slot constant
/// `key_x` and the scrambler constant `c`.
pub open spec fn spec_get_ncch_key(y: Seq<u8>, key_x: Seq<u8>, c: Seq<u8>) -> Seq<u8> {
    spec_scramble(key_x, y, c)
}

pub fn get_ncch_key(y: &[u8], key_x: &[u8], c: &[u8]) -> (r: Vec<u8>)
    requires
        y@.len() == 16,
        key_x@.len() == 16,
        c@.len() == 16,
    ensures
        r@ == spec_get_ncch_key(y@, key_x@, c@),
{
    scramble(key_x, y, c)
}

/// Rotating by zero bits leaves the value untouched.
pub proof fn lemma_lrot128_identity(a: Seq<u8>)
    requires
        a.len() == 16,
    ensures
        spec_lrot128(a, 0) == a,
{
    assert(spec_lrot128(a, 0) =~= a);
}

/// Bit `j` of a 128-bit big-endian value, counted from the most significant
/// bit of the first byte; a single-bit byte value.
pub open spec fn bit_of(a: Seq<u8>, j: int) -> u8 {
    (a[j / 8] >> ((7 - (j % 8)) as u8)) & 1
}

/// Two 128-bit values with the same bits are the same bytes.
proof fn lemma_bits_determine(a: Seq<u8>, b: Seq<u8>)
    requires
        a.len() == 16,
        b.len() == 16,
        forall|j: int| 0 <= j < 128 ==> bit_of(a, j) == bit_of(b, j),
    ensures
        a == b,
{
    assert forall|i: int| 0 <= i < 16 implies a[i] == b[i] by {
        lemma_bit_eq_at(a, b, i, 0);
        lemma_bit_eq_at(a, b, i, 1);
        lemma_bit_eq_at(a, b, i, 2);
        lemma_bit_eq_at(a, b, i, 3);
        lemma_bit_eq_at(a, b, i, 4);
        lemma_bit_eq_at(a, b, i, 5);
        lemma_bit_eq_at(a, b, i, 6);
        lemma_bit_eq_at(a, b, i, 7);
        let x = a[i];
        let y = b[i];
        assert(x == y) by (bit_vector)
            requires
                (x >> 7u8) & 1 == (y >> 7u8) & 1,
                (x >> 6u8) & 1 == (y >> 6u8) & 1,
                (x >> 5u8) & 1 == (y >> 5u8) & 1,
                (x >> 4u8) & 1 == (y >> 4u8) & 1,
                (x >> 3u8) & 1 == (y >> 3u8) & 1,
                (x >> 2u8) & 1 == (y >> 2u8) & 1,
                (x >> 1u8) & 1 == (y >> 1u8) & 1,
                (x >> 0u8) & 1 == (y >> 0u8) & 1,
        ;
    }
    assert(a =~= b);
}

proof fn lemma_bit_eq_at(a: Seq<u8>, b: Seq<u8>, i: int, k: int)
    requires
        a.len() == 16,
        b.len() == 16,
        0 <= i < 16,
        0 <= k < 8,
        forall|j: int| 0 <= j < 128 ==> bit_of(a, j) == bit_of(b, j),
    ensures
        (a[i] >> ((7 - k) as u8)) & 1 == (b[i] >> ((7 - k) as u8)) & 1,
{
    assert((8 * i + k) / 8 == i && (8 * i + k) % 8 == k) by (nonlinear_arith)
        requires
            0 <= k < 8,
            0 <= i,
    ;
    assert(bit_of(a, 8 * i + k) == bit_of(b, 8 * i + k));
}

/// A left rotation moves bit `(j + rot) mod 128` of the input to bit `j` of
/// the output.
proof fn lemma_lrot_bits(a: Seq<u8>, rot: int)
    requires
        a.len() == 16,
        0 <= rot < 128,
    ensures
        forall|j: int|
            0 <= j < 128 ==> #[trigger] bit_of(spec_lrot128(a, rot), j) == bit_of(
                a,
                (j + rot) % 128,
            ),
{
    let out = spec_lrot128(a, rot);
    let bsh = rot / 8;
    let bit = rot % 8;
    assert forall|j: int| 0 <= j < 128 implies #[trigger] bit_of(out, j) == bit_of(
        a,
        (j + rot) % 128,
    ) by {
        let i = j / 8;
        let jb = j % 8;
        assert(0 <= i < 16 && 0 <= jb < 8 && j == 8 * i + jb) by (nonlinear_arith)
            requires
                0 <= j < 128,
                i == j / 8,
                jb == j % 8,
        ;
        assert(0 <= bsh < 16 && 0 <= bit < 8 && rot == 8 * bsh + bit) by (nonlinear_arith)
            requires
                0 <= rot < 128,
                bsh == rot / 8,
                bit == rot % 8,
        ;
        let wa = (i + bsh) % 16;
        let wb = (i + bsh + 1) % 16;
        let x = a[wa];
        let y = a[wb];
        assert(out[i] == lrot_byte(a, rot, i));
        if jb + bit < 8 {
            // the target bit comes from the first source byte
            assert((8 * (i + bsh) + (jb + bit)) % 128 == 8 * wa + (jb + bit)) by (nonlinear_arith)
                requires
                    0 <= jb + bit < 8,
                    0 <= i + bsh,
                    wa == (i + bsh) % 16,
            ;
            assert((8 * wa + (jb + bit)) / 8 == wa && (8 * wa + (jb + bit)) % 8 == jb + bit)
                by (nonlinear_arith)
                requires
                    0 <= jb + bit < 8,
                    0 <= wa,
            ;
            assert(bit_of(a, (j + rot) % 128) == (x >> ((7 - (jb + bit)) as u8)) & 1);
            if bit == 0 {
                assert(bit_of(out, j) == (x >> ((7 - jb) as u8)) & 1);
            } else {
                let bitn = bit as u8;
                let jbn = jb as u8;
                assert((((x << bitn) | (y >> ((8 - bitn) as u8))) >> ((7 - jbn) as u8)) & 1 == (x
                    >> ((7 - (jbn + bitn)) as u8)) & 1) by (bit_vector)
                    requires
                        1 <= bitn < 8,
                        jbn < 8,
                        jbn + bitn < 8,
                ;
            }
        } else {
            // the target bit wraps into the following source byte
            assert(bit >= 1);
            assert((8 * (i + bsh + 1) + (jb + bit - 8)) % 128 == 8 * wb + (jb + bit - 8))
                by (nonlinear_arith)
                requires
                    0 <= jb + bit - 8 < 8,
                    0 <= i + bsh + 1,
                    wb == (i + bsh + 1) % 16,
            ;
            assert(8 * (i + bsh + 1) + (jb + bit - 8) == 8 * (i + bsh) + (jb + bit));
            assert((8 * wb + (jb + bit - 8)) / 8 == wb && (8 * wb + (jb + bit - 8)) % 8 == jb + bit
                - 8) by (nonlinear_arith)
                requires
                    0 <= jb + bit - 8 < 8,
                    0 <= wb,
            ;
            assert(bit_of(a, (j + rot) % 128) == (y >> ((15 - (jb + bit)) as u8)) & 1);
            let bitn = bit as u8;
            let jbn = jb as u8;
            assert((((x << bitn) | (y >> ((8 - bitn) as u8))) >> ((7 - jbn) as u8)) & 1 == (y >> ((
            15 - (jbn + bitn)) as u8)) & 1) by (bit_vector)
                requires
                    1 <= bitn < 8,
                    jbn < 8,
                    jbn + bitn >= 8,
                    jbn + bitn < 16,
            ;
        }
    }
}

/// Two rotations compose into one rotation by the sum of the amounts,
/// reduced modulo the word size.
pub proof fn lemma_lrot128_compose(x: Seq<u8>, a: int, b: int)
    requires
        x.len() == 16,
        0 <= a < 128,
        0 <= b < 128,
    ensures
        spec_lrot128(spec_lrot128(x, a), b) == spec_lrot128(x, (a + b) % 128),
{
    let mid = spec_lrot128(x, a);
    let lhs = spec_lrot128(mid, b);
    let rhs = spec_lrot128(x, (a + b) % 128);
    lemma_lrot_bits(x, a);
    lemma_lrot_bits(mid, b);
    lemma_lrot_bits(x, (a + b) % 128);
    assert forall|j: int| 0 <= j < 128 implies bit_of(lhs, j) == bit_of(rhs, j) by {
        assert(bit_of(lhs, j) == bit_of(mid, (j + b) % 128));
        assert(bit_of(mid, (j + b) % 128) == bit_of(x, (((j + b) % 128) + a) % 128));
        vstd::arithmetic::div_mod::lemma_add_mod_noop((j + b) % 128, a, 128);
        vstd::arithmetic::div_mod::lemma_mod_twice(j + b, 128);
        vstd::arithmetic::div_mod::lemma_add_mod_noop(j + b, a, 128);
        assert((((j + b) % 128) + a) % 128 == (j + b + a) % 128);
        assert(bit_of(rhs, j) == bit_of(x, (j + (a + b) % 128) % 128));
        vstd::arithmetic::div_mod::lemma_add_mod_noop(j, (a + b) % 128, 128);
        vstd::arithmetic::div_mod::lemma_mod_twice(a + b, 128);
        vstd::arithmetic::div_mod::lemma_add_mod_noop(j, a + b, 128);
        assert((j + (a + b) % 128) % 128 == (j + a + b) % 128);
        assert((j + b + a) % 128 == (j + a + b) % 128);
    }
    lemma_bits_determine(lhs, rhs);
}

/// The AES-128-CTR keystream byte at absolute stream position `pos`, for a
/// given key and initial counter block.
pub uninterp spec fn aes128_ctr_keystream(key: Seq<u8>, ctr: Seq<u8>, pos: int) -> u8;

/// `p` XORed with the keystream starting at stream byte offset `offset`.
pub open spec fn xor_keystream(p: Seq<u8>, key: Seq<u8>, ctr: Seq<u8>, offset: int) -> Seq<u8> {
    Seq::new(p.len(), |i: int| p[i] ^ aes128_ctr_keystream(key, ctr, offset + i))
}

/// Relies on aes_ctr's Aes128Ctr: seeking to `offset` and applying the
/// keystream XORs each byte with the keystream byte at its absolute stream
/// position, a function of the key and counter block alone.
#[verifier::external_body]
pub fn aes_ctr_decrypt(data: &mut Vec<u8>, key: &[u8], ctr: &[u8], offset: u64)
    requires
        key@.len() == 16,
        ctr@.len() == 16,
        offset < 0x1000_0000_0000_0000,
        old(data)@.len() < 0x1_0000_0000,
    ensures
        final(data)@.len() == old(data)@.len(),
        forall|i: int|
            0 <= i < old(data)@.len() ==> final(data)@[i] == old(data)@[i] ^ aes128_ctr_keystream(
                key@,
                ctr@,
                offset + i,
            ),
        final(data)@ == xor_keystream(old(data)@, key@, ctr@, offset as int),
{
    let key = GenericArray::from_slice(key);
    let ctr = GenericArray::from_slice(ctr);
    let mut cipher = aes_ctr::Aes128Ctr::new(key, ctr);
    cipher.seek(offset);
    cipher.apply_keystream(data.as_mut_slice());
}

/// Applying the keystream at the same key, counter and offset twice returns
/// the original bytes, whatever the keystream is: decryption inverts
/// encryption, including at offsets that are not block-aligned.
pub proof fn lemma_xor_keystream_involutive(p: Seq<u8>, key: Seq<u8>, ctr: Seq<u8>, offset: int)
    ensures
        xor_keystream(xor_keystream(p, key, ctr, offset), key, ctr, offset) == p,
{
    let q = xor_keystream(xor_keystream(p, key, ctr, offset), key, ctr, offset);
    assert forall|i: int| 0 <= i < p.len() implies q[i] == p[i] by {
        let x = p[i];
        let k = aes128_ctr_keystream(key, ctr, offset + i);
        assert((x ^ k) ^ k == x) by (bit_vector);
    }
    assert(q =~= p);
}

} // verus!
