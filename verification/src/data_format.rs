//! Fixed-layout little-endian container structures: the NCCH header, the
//! extended header, the exefs file table and the SMDH metadata block.
//!
//! Each structure has a `parses` predicate relating a value to the bytes it
//! was read from, a `ser` function giving its serialization, and a proof that
//! parsing followed by serializing returns the original bytes.
use crate::bytesio::{
    get_bytes, get_rows, get_u16, get_u16s, get_u32, get_u32s, get_u64, get_u64s, le16_at, le32_at,
    le64_at, lemma_concat_sub, lemma_le16_rt, lemma_le32_rt, lemma_le64_rt, lemma_ser_rows_rt,
    lemma_ser_rows_len, lemma_ser_u16s_len, lemma_ser_u16s_rt, lemma_ser_u32s_len,
    lemma_ser_u32s_rt, lemma_ser_u64s_len, lemma_ser_u64s_rt, put_byte, put_bytes, put_rows,
    put_u16, put_u16s, put_u32, put_u32s, put_u64, put_u64s, ser_rows, ser_u16s, ser_u32s,
    ser_u64s,
};
use vstd::bytes::*;
use vstd::prelude::*;

verus! {

pub const NCCH_HEADER_LEN: usize = 0x200;

pub const EXHEADER_LEN: usize = 0x800;

pub const EXEFS_HEADER_LEN: usize = 0x200;

pub const SMDH_LEN: usize = 0x36C0;

#[derive(Clone, Debug)]
pub struct NcchContentType {
    pub is_data: u8,
    pub is_executable: u8,
    pub category: u8,
}

impl NcchContentType {
    /// The three bit groups of the content-type byte, lowest bits first.
    pub open spec fn parses(self, x: u8) -> bool {
        &&& self.is_data == x & 1
        &&& self.is_executable == (x >> 1) & 1
        &&& self.category == (x >> 2) & 0x3f
    }

    pub open spec fn byte(self) -> u8 {
        self.is_data | (self.is_executable << 1) | (self.category << 2)
    }
}

#[derive(Clone, Debug)]
pub struct NcchKeyConfig {
    pub fixed_key: u8,
    pub no_romfs: u8,
    pub no_crypto: u8,
    pub reserved_a: u8,
    pub seed_crypto: u8,
    pub reserved_b: u8,
}

impl NcchKeyConfig {
    /// The six bit groups of the key-configuration byte, lowest bits first.
    pub open spec fn parses(self, x: u8) -> bool {
        &&& self.fixed_key == x & 1
        &&& self.no_romfs == (x >> 1) & 1
        &&& self.no_crypto == (x >> 2) & 1
        &&& self.reserved_a == (x >> 3) & 3
        &&& self.seed_crypto == (x >> 5) & 1
        &&& self.reserved_b == (x >> 6) & 3
    }

    pub open spec fn byte(self) -> u8 {
        self.fixed_key | (self.no_romfs << 1) | (self.no_crypto << 2) | (self.reserved_a << 3) | (
        self.seed_crypto << 5) | (self.reserved_b << 6)
    }
}

proof fn lemma_bits_1_1_6(x: u8)
    by (bit_vector)
    ensures
        (x & 1) | (((x >> 1) & 1) << 1) | (((x >> 2) & 0x3f) << 2) == x,
{
}

proof fn lemma_bits_keyconfig(x: u8)
    by (bit_vector)
    ensures
        (x & 1) | (((x >> 1) & 1) << 1) | (((x >> 2) & 1) << 2) | (((x >> 3) & 3) << 3) | (((x >> 5)
            & 1) << 5) | (((x >> 6) & 3) << 6) == x,
{
}

pub proof fn lemma_content_type_rt(ct: NcchContentType, x: u8)
    requires
        ct.parses(x),
    ensures
        ct.byte() == x,
{
    lemma_bits_1_1_6(x);
}

pub proof fn lemma_key_config_rt(kc: NcchKeyConfig, x: u8)
    requires
        kc.parses(x),
    ensures
        kc.byte() == x,
{
    lemma_bits_keyconfig(x);
}

#[derive(Clone, Debug)]
pub struct NcchHeader {
    pub signature: Vec<u8>,
    pub magic: Vec<u8>,
    pub content_size: u32,
    pub partition_id: u64,
    pub maker_code: u16,
    pub version: u16,
    pub seed_verifier: Vec<u8>,
    pub program_id: u64,
    pub reserved_a: Vec<u8>,
    pub logo_hash: Vec<u8>,
    pub product_code: Vec<u8>,
    pub exheader_hash: Vec<u8>,
    pub exheader_size: u32,
    pub reseved_b: Vec<u8>,
    pub flag0: u8,
    pub flag1: u8,
    pub flag2: u8,
    pub secondary_key_slot: u8,
    pub platform: u8,
    pub content_type: NcchContentType,
    pub content_unit_size: u8,
    pub key_config: NcchKeyConfig,
    pub sdk_info_offset: u32,
    pub sdk_info_size: u32,
    pub logo_offset: u32,
    pub logo_size: u32,
    pub exefs_offset: u32,
    pub exefs_size: u32,
    pub exefs_hash_region_size: u32,
    pub reserved_c: Vec<u8>,
    pub romfs_offset: u32,
    pub romfs_size: u32,
    pub romfs_hash_region_size: u32,
    pub reserved_d: Vec<u8>,
    pub exefs_hash: Vec<u8>,
    pub romfs_hash: Vec<u8>,
}

impl NcchHeader {
    pub open spec fn wf(self) -> bool {
        &&& self.signature@.len() == 0x100
        &&& self.magic@.len() == 4
        &&& self.seed_verifier@.len() == 4
        &&& self.reserved_a@.len() == 16
        &&& self.logo_hash@.len() == 32
        &&& self.product_code@.len() == 16
        &&& self.exheader_hash@.len() == 32
        &&& self.reseved_b@.len() == 4
        &&& self.reserved_c@.len() == 4
        &&& self.reserved_d@.len() == 4
        &&& self.exefs_hash@.len() == 32
        &&& self.romfs_hash@.len() == 32
    }

    pub open spec fn parses(self, b: Seq<u8>) -> bool {
        &&& self.signature@ == b.subrange(0x000, 0x100)
        &&& self.magic@ == b.subrange(0x100, 0x104)
        &&& self.content_size == le32_at(b, 0x104)
        &&& self.partition_id == le64_at(b, 0x108)
        &&& self.maker_code == le16_at(b, 0x110)
        &&& self.version == le16_at(b, 0x112)
        &&& self.seed_verifier@ == b.subrange(0x114, 0x118)
        &&& self.program_id == le64_at(b, 0x118)
        &&& self.reserved_a@ == b.subrange(0x120, 0x130)
        &&& self.logo_hash@ == b.subrange(0x130, 0x150)
        &&& self.product_code@ == b.subrange(0x150, 0x160)
        &&& self.exheader_hash@ == b.subrange(0x160, 0x180)
        &&& self.exheader_size == le32_at(b, 0x180)
        &&& self.reseved_b@ == b.subrange(0x184, 0x188)
        &&& self.flag0 == b[0x188]
        &&& self.flag1 == b[0x189]
        &&& self.flag2 == b[0x18a]
        &&& self.secondary_key_slot == b[0x18b]
        &&& self.platform == b[0x18c]
        &&& self.content_type.parses(b[0x18d])
        &&& self.content_unit_size == b[0x18e]
        &&& self.key_config.parses(b[0x18f])
        &&& self.sdk_info_offset == le32_at(b, 0x190)
        &&& self.sdk_info_size == le32_at(b, 0x194)
        &&& self.logo_offset == le32_at(b, 0x198)
        &&& self.logo_size == le32_at(b, 0x19c)
        &&& self.exefs_offset == le32_at(b, 0x1a0)
        &&& self.exefs_size == le32_at(b, 0x1a4)
        &&& self.exefs_hash_region_size == le32_at(b, 0x1a8)
        &&& self.reserved_c@ == b.subrange(0x1ac, 0x1b0)
        &&& self.romfs_offset == le32_at(b, 0x1b0)
        &&& self.romfs_size == le32_at(b, 0x1b4)
        &&& self.romfs_hash_region_size == le32_at(b, 0x1b8)
        &&& self.reserved_d@ == b.subrange(0x1bc, 0x1c0)
        &&& self.exefs_hash@ == b.subrange(0x1c0, 0x1e0)
        &&& self.romfs_hash@ == b.subrange(0x1e0, 0x200)
    }

    pub open spec fn ser(self) -> Seq<u8> {
        self.signature@ + self.magic@ + spec_u32_to_le_bytes(self.content_size)
            + spec_u64_to_le_bytes(self.partition_id) + spec_u16_to_le_bytes(self.maker_code)
            + spec_u16_to_le_bytes(self.version) + self.seed_verifier@ + spec_u64_to_le_bytes(
            self.program_id,
        ) + self.reserved_a@ + self.logo_hash@ + self.product_code@ + self.exheader_hash@
            + spec_u32_to_le_bytes(self.exheader_size) + self.reseved_b@ + seq![self.flag0]
            + seq![self.flag1] + seq![self.flag2] + seq![self.secondary_key_slot]
            + seq![self.platform] + seq![self.content_type.byte()] + seq![self.content_unit_size]
            + seq![self.key_config.byte()] + spec_u32_to_le_bytes(self.sdk_info_offset)
            + spec_u32_to_le_bytes(self.sdk_info_size) + spec_u32_to_le_bytes(self.logo_offset)
            + spec_u32_to_le_bytes(self.logo_size) + spec_u32_to_le_bytes(self.exefs_offset)
            + spec_u32_to_le_bytes(self.exefs_size) + spec_u32_to_le_bytes(
            self.exefs_hash_region_size,
        ) + self.reserved_c@ + spec_u32_to_le_bytes(self.romfs_offset) + spec_u32_to_le_bytes(
            self.romfs_size,
        ) + spec_u32_to_le_bytes(self.romfs_hash_region_size) + self.reserved_d@ + self.exefs_hash@
            + self.romfs_hash@
    }

    pub proof fn lemma_parses_wf(self, b: Seq<u8>)
        requires
            b.len() == 0x200,
            self.parses(b),
        ensures
            self.wf(),
    {
    }

    pub proof fn lemma_wf_ser_len(self)
        requires
            self.wf(),
        ensures
            self.ser().len() == 0x200,
    {
        lemma_auto_spec_u16_to_from_le_bytes();
        lemma_auto_spec_u32_to_from_le_bytes();
        lemma_auto_spec_u64_to_from_le_bytes();
    }

    /// Parsing a 0x200-byte block and serializing the result returns the
    /// same bytes.
    pub proof fn lemma_round_trip(self, b: Seq<u8>)
        requires
            b.len() == 0x200,
            self.parses(b),
        ensures
            self.ser() == b,
    {
        lemma_le16_rt(b, 0x110);
        lemma_le16_rt(b, 0x112);
        lemma_le32_rt(b, 0x104);
        lemma_le32_rt(b, 0x180);
        lemma_le32_rt(b, 0x190);
        lemma_le32_rt(b, 0x194);
        lemma_le32_rt(b, 0x198);
        lemma_le32_rt(b, 0x19c);
        lemma_le32_rt(b, 0x1a0);
        lemma_le32_rt(b, 0x1a4);
        lemma_le32_rt(b, 0x1a8);
        lemma_le32_rt(b, 0x1b0);
        lemma_le32_rt(b, 0x1b4);
        lemma_le32_rt(b, 0x1b8);
        lemma_le64_rt(b, 0x108);
        lemma_le64_rt(b, 0x118);
        lemma_content_type_rt(self.content_type, b[0x18d]);
        lemma_key_config_rt(self.key_config, b[0x18f]);
        assert(seq![self.flag0] =~= b.subrange(0x188, 0x189));
        assert(seq![self.flag1] =~= b.subrange(0x189, 0x18a));
        assert(seq![self.flag2] =~= b.subrange(0x18a, 0x18b));
        assert(seq![self.secondary_key_slot] =~= b.subrange(0x18b, 0x18c));
        assert(seq![self.platform] =~= b.subrange(0x18c, 0x18d));
        assert(seq![self.content_type.byte()] =~= b.subrange(0x18d, 0x18e));
        assert(seq![self.content_unit_size] =~= b.subrange(0x18e, 0x18f));
        assert(seq![self.key_config.byte()] =~= b.subrange(0x18f, 0x190));
        lemma_concat_sub(b, 0x000, 0x100, 0x104);
        lemma_concat_sub(b, 0x000, 0x104, 0x108);
        lemma_concat_sub(b, 0x000, 0x108, 0x110);
        lemma_concat_sub(b, 0x000, 0x110, 0x112);
        lemma_concat_sub(b, 0x000, 0x112, 0x114);
        lemma_concat_sub(b, 0x000, 0x114, 0x118);
        lemma_concat_sub(b, 0x000, 0x118, 0x120);
        lemma_concat_sub(b, 0x000, 0x120, 0x130);
        lemma_concat_sub(b, 0x000, 0x130, 0x150);
        lemma_concat_sub(b, 0x000, 0x150, 0x160);
        lemma_concat_sub(b, 0x000, 0x160, 0x180);
        lemma_concat_sub(b, 0x000, 0x180, 0x184);
        lemma_concat_sub(b, 0x000, 0x184, 0x188);
        lemma_concat_sub(b, 0x000, 0x188, 0x189);
        lemma_concat_sub(b, 0x000, 0x189, 0x18a);
        lemma_concat_sub(b, 0x000, 0x18a, 0x18b);
        lemma_concat_sub(b, 0x000, 0x18b, 0x18c);
        lemma_concat_sub(b, 0x000, 0x18c, 0x18d);
        lemma_concat_sub(b, 0x000, 0x18d, 0x18e);
        lemma_concat_sub(b, 0x000, 0x18e, 0x18f);
        lemma_concat_sub(b, 0x000, 0x18f, 0x190);
        lemma_concat_sub(b, 0x000, 0x190, 0x194);
        lemma_concat_sub(b, 0x000, 0x194, 0x198);
        lemma_concat_sub(b, 0x000, 0x198, 0x19c);
        lemma_concat_sub(b, 0x000, 0x19c, 0x1a0);
        lemma_concat_sub(b, 0x000, 0x1a0, 0x1a4);
        lemma_concat_sub(b, 0x000, 0x1a4, 0x1a8);
        lemma_concat_sub(b, 0x000, 0x1a8, 0x1ac);
        lemma_concat_sub(b, 0x000, 0x1ac, 0x1b0);
        lemma_concat_sub(b, 0x000, 0x1b0, 0x1b4);
        lemma_concat_sub(b, 0x000, 0x1b4, 0x1b8);
        lemma_concat_sub(b, 0x000, 0x1b8, 0x1bc);
        lemma_concat_sub(b, 0x000, 0x1bc, 0x1c0);
        lemma_concat_sub(b, 0x000, 0x1c0, 0x1e0);
        lemma_concat_sub(b, 0x000, 0x1e0, 0x200);
        assert(b.subrange(0x000, 0x200) =~= b);
    }

    pub fn read_bytes(data: &[u8]) -> (r: NcchHeader)
        requires
            data@.len() == 0x200,
        ensures
            r.parses(data@),
            r.wf(),
    {
        let r = NcchHeader {
            signature: get_bytes(data, 0x000, 0x100),
            magic: get_bytes(data, 0x100, 4),
            content_size: get_u32(data, 0x104),
            partition_id: get_u64(data, 0x108),
            maker_code: get_u16(data, 0x110),
            version: get_u16(data, 0x112),
            seed_verifier: get_bytes(data, 0x114, 4),
            program_id: get_u64(data, 0x118),
            reserved_a: get_bytes(data, 0x120, 16),
            logo_hash: get_bytes(data, 0x130, 32),
            product_code: get_bytes(data, 0x150, 16),
            exheader_hash: get_bytes(data, 0x160, 32),
            exheader_size: get_u32(data, 0x180),
            reseved_b: get_bytes(data, 0x184, 4),
            flag0: data[0x188],
            flag1: data[0x189],
            flag2: data[0x18a],
            secondary_key_slot: data[0x18b],
            platform: data[0x18c],
            content_type: NcchContentType {
                is_data: data[0x18d] & 1,
                is_executable: (data[0x18d] >> 1) & 1,
                category: (data[0x18d] >> 2) & 0x3f,
            },
            content_unit_size: data[0x18e],
            key_config: NcchKeyConfig {
                fixed_key: data[0x18f] & 1,
                no_romfs: (data[0x18f] >> 1) & 1,
                no_crypto: (data[0x18f] >> 2) & 1,
                reserved_a: (data[0x18f] >> 3) & 3,
                seed_crypto: (data[0x18f] >> 5) & 1,
                reserved_b: (data[0x18f] >> 6) & 3,
            },
            sdk_info_offset: get_u32(data, 0x190),
            sdk_info_size: get_u32(data, 0x194),
            logo_offset: get_u32(data, 0x198),
            logo_size: get_u32(data, 0x19c),
            exefs_offset: get_u32(data, 0x1a0),
            exefs_size: get_u32(data, 0x1a4),
            exefs_hash_region_size: get_u32(data, 0x1a8),
            reserved_c: get_bytes(data, 0x1ac, 4),
            romfs_offset: get_u32(data, 0x1b0),
            romfs_size: get_u32(data, 0x1b4),
            romfs_hash_region_size: get_u32(data, 0x1b8),
            reserved_d: get_bytes(data, 0x1bc, 4),
            exefs_hash: get_bytes(data, 0x1c0, 32),
            romfs_hash: get_bytes(data, 0x1e0, 32),
        };
        r
    }

    pub fn write_bytes(&self) -> (r: Vec<u8>)
        ensures
            r@ == self.ser(),
    {
        let mut out: Vec<u8> = Vec::new();
        put_bytes(&mut out, &self.signature);
        put_bytes(&mut out, &self.magic);
        put_u32(&mut out, self.content_size);
        put_u64(&mut out, self.partition_id);
        put_u16(&mut out, self.maker_code);
        put_u16(&mut out, self.version);
        put_bytes(&mut out, &self.seed_verifier);
        put_u64(&mut out, self.program_id);
        put_bytes(&mut out, &self.reserved_a);
        put_bytes(&mut out, &self.logo_hash);
        put_bytes(&mut out, &self.product_code);
        put_bytes(&mut out, &self.exheader_hash);
        put_u32(&mut out, self.exheader_size);
        put_bytes(&mut out, &self.reseved_b);
        put_byte(&mut out, self.flag0);
        put_byte(&mut out, self.flag1);
        put_byte(&mut out, self.flag2);
        put_byte(&mut out, self.secondary_key_slot);
        put_byte(&mut out, self.platform);
        put_byte(
            &mut out,
            self.content_type.is_data | (self.content_type.is_executable << 1) | (
            self.content_type.category << 2),
        );
        put_byte(&mut out, self.content_unit_size);
        put_byte(
            &mut out,
            self.key_config.fixed_key | (self.key_config.no_romfs << 1) | (self.key_config.no_crypto
                << 2) | (self.key_config.reserved_a << 3) | (self.key_config.seed_crypto << 5) | (
            self.key_config.reserved_b << 6),
        );
        put_u32(&mut out, self.sdk_info_offset);
        put_u32(&mut out, self.sdk_info_size);
        put_u32(&mut out, self.logo_offset);
        put_u32(&mut out, self.logo_size);
        put_u32(&mut out, self.exefs_offset);
        put_u32(&mut out, self.exefs_size);
        put_u32(&mut out, self.exefs_hash_region_size);
        put_bytes(&mut out, &self.reserved_c);
        put_u32(&mut out, self.romfs_offset);
        put_u32(&mut out, self.romfs_size);
        put_u32(&mut out, self.romfs_hash_region_size);
        put_bytes(&mut out, &self.reserved_d);
        put_bytes(&mut out, &self.exefs_hash);
        put_bytes(&mut out, &self.romfs_hash);
        out
    }

    /// The byte size of one content unit; the unit exponent must be small
    /// enough that the size fits in 64 bits.
    pub fn unit_size(&self) -> (r: u64)
        requires
            self.content_unit_size <= 20,
        ensures
            r == (0x200u64 << self.content_unit_size),
            0x200 <= r <= 0x20000000,
    {
        proof {
            let c = self.content_unit_size;
            assert(c <= 20 ==> 0x200u64 <= (0x200u64 << c) <= 0x20000000) by (bit_vector);
        }
        0x200u64 << (self.content_unit_size as u64)
    }
}

#[derive(Clone, Debug)]
pub struct ExefsFile {
    pub name: Vec<u8>,
    pub offset: u32,
    pub size: u32,
}

impl ExefsFile {
    pub open spec fn wf(self) -> bool {
        self.name@.len() == 8
    }

    pub open spec fn parses(self, b: Seq<u8>, off: int) -> bool {
        &&& self.name@ == b.subrange(off, off + 8)
        &&& self.offset == le32_at(b, off + 8)
        &&& self.size == le32_at(b, off + 12)
    }

    pub open spec fn ser(self) -> Seq<u8> {
        self.name@ + spec_u32_to_le_bytes(self.offset) + spec_u32_to_le_bytes(self.size)
    }

    pub proof fn lemma_round_trip(self, b: Seq<u8>, off: int)
        requires
            0 <= off,
            off + 16 <= b.len(),
            self.parses(b, off),
        ensures
            self.ser() == b.subrange(off, off + 16),
    {
        lemma_le32_rt(b, off + 8);
        lemma_le32_rt(b, off + 12);
        lemma_concat_sub(b, off, off + 8, off + 12);
        lemma_concat_sub(b, off, off + 12, off + 16);
    }

    pub fn read_at(data: &[u8], off: usize) -> (r: ExefsFile)
        requires
            off + 16 <= data@.len(),
        ensures
            r.parses(data@, off as int),
            r.wf(),
    {
        let _n: usize = data.len();
        ExefsFile {
            name: get_bytes(data, off, 8),
            offset: get_u32(data, off + 8),
            size: get_u32(data, off + 12),
        }
    }
}

/// The concatenated serializations of a sequence of exefs file entries.
pub open spec fn ser_files(v: Seq<ExefsFile>) -> Seq<u8>
    decreases v.len(),
{
    if v.len() == 0 {
        Seq::empty()
    } else {
        ser_files(v.drop_last()) + v.last().ser()
    }
}

pub proof fn lemma_ser_files_rt(v: Seq<ExefsFile>, b: Seq<u8>, off: int, n: int)
    requires
        0 <= off,
        n >= 0,
        off + 16 * n <= b.len(),
        v.len() == n,
        forall|k: int| 0 <= k < n ==> (#[trigger] v[k]).parses(b, off + 16 * k),
    ensures
        ser_files(v) == b.subrange(off, off + 16 * n),
    decreases n,
{
    if n == 0 {
        assert(ser_files(v) =~= b.subrange(off, off));
    } else {
        let t = v.drop_last();
        lemma_ser_files_rt(t, b, off, n - 1);
        assert(v[n - 1].parses(b, off + 16 * (n - 1)));
        v[n - 1].lemma_round_trip(b, off + 16 * (n - 1));
        lemma_concat_sub(b, off, off + 16 * (n - 1), off + 16 * n);
    }
}

pub proof fn lemma_ser_files_len(v: Seq<ExefsFile>)
    requires
        forall|k: int| 0 <= k < v.len() ==> (#[trigger] v[k]).wf(),
    ensures
        ser_files(v).len() == 16 * v.len(),
    decreases v.len(),
{
    lemma_auto_spec_u32_to_from_le_bytes();
    if v.len() > 0 {
        assert(v[v.len() - 1].wf());
        lemma_ser_files_len(v.drop_last());
    }
}

pub proof fn lemma_ser_files_push(v: Seq<ExefsFile>, x: ExefsFile)
    ensures
        ser_files(v.push(x)) == ser_files(v) + x.ser(),
{
    assert(v.push(x).drop_last() =~= v);
    assert(v.push(x).last() == x);
}

#[derive(Clone, Debug)]
pub struct ExefsHeader {
    pub files: Vec<ExefsFile>,
    pub reserved: Vec<u8>,
    pub hashes: Vec<Vec<u8>>,
}

impl ExefsHeader {
    pub open spec fn wf(self) -> bool {
        &&& self.files@.len() == 10
        &&& forall|k: int| 0 <= k < 10 ==> (#[trigger] self.files@[k]).wf()
        &&& self.reserved@.len() == 32
        &&& self.hashes@.len() == 10
        &&& forall|k: int| 0 <= k < 10 ==> (#[trigger] self.hashes@[k])@.len() == 32
    }

    pub open spec fn parses(self, b: Seq<u8>) -> bool {
        &&& self.files@.len() == 10
        &&& forall|k: int| 0 <= k < 10 ==> (#[trigger] self.files@[k]).parses(b, 16 * k)
        &&& self.reserved@ == b.subrange(0xa0, 0xc0)
        &&& self.hashes@.len() == 10
        &&& forall|k: int| 0 <= k < 10 ==> (#[trigger] self.hashes@[k])@ == b.subrange(
            0xc0 + 32 * k,
            0xc0 + 32 * (k + 1),
        )
    }

    pub open spec fn ser(self) -> Seq<u8> {
        ser_files(self.files@) + self.reserved@ + ser_rows(self.hashes@)
    }

    pub proof fn lemma_wf_ser_len(self)
        requires
            self.wf(),
        ensures
            self.ser().len() == 0x200,
    {
        lemma_ser_files_len(self.files@);
        lemma_ser_rows_len(self.hashes@, 32);
    }

    /// Parsing a 0x200-byte exefs header block and serializing the result
    /// returns the same bytes.
    pub proof fn lemma_round_trip(self, b: Seq<u8>)
        requires
            b.len() == 0x200,
            self.parses(b),
        ensures
            self.ser() == b,
    {
        lemma_ser_files_rt(self.files@, b, 0, 10);
        assert forall|k: int| 0 <= k < 10 implies (#[trigger] self.hashes@[k])@ == b.subrange(
            0xc0 + k * 32,
            0xc0 + (k + 1) * 32,
        ) by {
            assert(self.hashes@[k]@ == b.subrange(0xc0 + 32 * k, 0xc0 + 32 * (k + 1)));
        }
        lemma_ser_rows_rt(self.hashes@, b, 0xc0, 10, 32);
        lemma_concat_sub(b, 0, 0xa0, 0xc0);
        lemma_concat_sub(b, 0, 0xc0, 0x200);
        assert(b.subrange(0, 0x200) =~= b);
    }

    pub fn read_bytes(data: &[u8]) -> (r: ExefsHeader)
        requires
            data@.len() == 0x200,
        ensures
            r.parses(data@),
            r.wf(),
    {
        let mut files: Vec<ExefsFile> = Vec::new();
        let mut i: usize = 0;
        while i < 10
            invariant
                i <= 10,
                data@.len() == 0x200,
                files@.len() == i,
                forall|k: int| 0 <= k < i ==> (#[trigger] files@[k]).parses(data@, 16 * k),
                forall|k: int| 0 <= k < i ==> (#[trigger] files@[k]).wf(),
            decreases 10 - i,
        {
            files.push(ExefsFile::read_at(data, 16 * i));
            i = i + 1;
        }
        let reserved = get_bytes(data, 0xa0, 32);
        let hashes = get_rows(data, 0xc0, 10, 32);
        ExefsHeader { files, reserved, hashes }
    }

    pub fn write_bytes(&self) -> (r: Vec<u8>)
        ensures
            r@ == self.ser(),
    {
        let mut out: Vec<u8> = Vec::new();
        let mut i: usize = 0;
        while i < self.files.len()
            invariant
                i <= self.files@.len(),
                out@ == ser_files(self.files@.take(i as int)),
            decreases self.files@.len() - i,
        {
            proof {
                assert(self.files@.take(i + 1) =~= self.files@.take(i as int).push(
                    self.files@[i as int],
                ));
                lemma_ser_files_push(self.files@.take(i as int), self.files@[i as int]);
            }
            put_bytes(&mut out, &self.files[i].name);
            put_u32(&mut out, self.files[i].offset);
            put_u32(&mut out, self.files[i].size);
            i = i + 1;
        }
        proof {
            assert(self.files@.take(self.files@.len() as int) =~= self.files@);
        }
        put_bytes(&mut out, &self.reserved);
        put_rows(&mut out, &self.hashes);
        out
    }
}

#[derive(Clone, Debug)]
pub struct ExheaderCodeSegment {
    pub address: u32,
    pub num_pages: u32,
    pub code_size: u32,
}

impl ExheaderCodeSegment {
    pub open spec fn parses(self, b: Seq<u8>, off: int) -> bool {
        &&& self.address == le32_at(b, off)
        &&& self.num_pages == le32_at(b, off + 4)
        &&& self.code_size == le32_at(b, off + 8)
    }

    pub open spec fn ser(self) -> Seq<u8> {
        spec_u32_to_le_bytes(self.address) + spec_u32_to_le_bytes(self.num_pages)
            + spec_u32_to_le_bytes(self.code_size)
    }

    pub proof fn lemma_round_trip(self, b: Seq<u8>, off: int)
        requires
            0 <= off,
            off + 12 <= b.len(),
            self.parses(b, off),
        ensures
            self.ser() == b.subrange(off, off + 12),
    {
        lemma_le32_rt(b, off);
        lemma_le32_rt(b, off + 4);
        lemma_le32_rt(b, off + 8);
        lemma_concat_sub(b, off, off + 4, off + 8);
        lemma_concat_sub(b, off, off + 8, off + 12);
    }

    pub fn read_at(data: &[u8], off: usize) -> (r: ExheaderCodeSegment)
        requires
            off + 12 <= data@.len(),
        ensures
            r.parses(data@, off as int),
    {
        let _n: usize = data.len();
        ExheaderCodeSegment {
            address: get_u32(data, off),
            num_pages: get_u32(data, off + 4),
            code_size: get_u32(data, off + 8),
        }
    }
}

#[derive(Clone, Debug)]
pub struct ExheaderSystemControlFlag {
    pub compress_code: u8,
    pub sd_app: u8,
    pub reserved: u8,
}

impl ExheaderSystemControlFlag {
    /// The three bit groups of the system-control byte, lowest bits first.
    pub open spec fn parses(self, x: u8) -> bool {
        &&& self.compress_code == x & 1
        &&& self.sd_app == (x >> 1) & 1
        &&& self.reserved == (x >> 2) & 0x3f
    }

    pub open spec fn byte(self) -> u8 {
        self.compress_code | (self.sd_app << 1) | (self.reserved << 2)
    }
}

pub proof fn lemma_system_control_flag_rt(f: ExheaderSystemControlFlag, x: u8)
    requires
        f.parses(x),
    ensures
        f.byte() == x,
{
    lemma_bits_1_1_6(x);
}

#[derive(Clone, Debug)]
pub struct ExheaderCoreFlag {
    pub enable_l2_cache: u32,
    pub high_cpu_speed: u32,
    pub reserved_a: u32,
    pub n3ds_system_mode: u32,
    pub reserved_b: u32,
    pub ideal_processor: u32,
    pub affinity_mask: u32,
    pub system_mode: u32,
    pub priority: u32,
}

impl ExheaderCoreFlag {
    /// The nine bit groups of the core-flag word, lowest bits first.
    pub open spec fn parses(self, x: u32) -> bool {
        &&& self.enable_l2_cache == x & 1
        &&& self.high_cpu_speed == (x >> 1) & 1
        &&& self.reserved_a == (x >> 2) & 0x3f
        &&& self.n3ds_system_mode == (x >> 8) & 0xf
        &&& self.reserved_b == (x >> 12) & 0xf
        &&& self.ideal_processor == (x >> 16) & 3
        &&& self.affinity_mask == (x >> 18) & 3
        &&& self.system_mode == (x >> 20) & 0xf
        &&& self.priority == (x >> 24) & 0xff
    }

    pub open spec fn word(self) -> u32 {
        self.enable_l2_cache | (self.high_cpu_speed << 1) | (self.reserved_a << 2) | (
        self.n3ds_system_mode << 8) | (self.reserved_b << 12) | (self.ideal_processor << 16) | (
        self.affinity_mask << 18) | (self.system_mode << 20) | (self.priority << 24)
    }
}

proof fn lemma_bits_coreflag(x: u32)
    by (bit_vector)
    ensures
        (x & 1) | (((x >> 1) & 1) << 1) | (((x >> 2) & 0x3f) << 2) | (((x >> 8) & 0xf) << 8) | (((x
            >> 12) & 0xf) << 12) | (((x >> 16) & 3) << 16) | (((x >> 18) & 3) << 18) | (((x >> 20)
            & 0xf) << 20) | (((x >> 24) & 0xff) << 24) == x,
{
}

pub proof fn lemma_core_flag_rt(f: ExheaderCoreFlag, x: u32)
    requires
        f.parses(x),
    ensures
        f.word() == x,
{
    lemma_bits_coreflag(x);
}

#[derive(Clone, Debug)]
pub struct ExheaderAccessControl {
    pub program_id: u64,
    pub core_version: u32,
    pub core_flag: ExheaderCoreFlag,
    pub resource_limit_desc: Vec<u16>,
    pub extdata_id: u64,
    pub system_savedata_id: Vec<u32>,
    pub storage_access_id: u64,
    pub filesystem_flag: u64,
    pub services: Vec<Vec<u8>>,
    pub reserved_a: Vec<u8>,
    pub resource_limit_category: u8,
    pub kernel_desc: Vec<u32>,
    pub reserved_b: Vec<u8>,
    pub arm9_flag: u32,
    pub arm9_flag_ext: Vec<u8>,
    pub arm9_flag_version: u8,
}

impl ExheaderAccessControl {
    pub open spec fn wf(self) -> bool {
        &&& self.resource_limit_desc@.len() == 16
        &&& self.system_savedata_id@.len() == 2
        &&& self.services@.len() == 34
        &&& forall|k: int| 0 <= k < 34 ==> (#[trigger] self.services@[k])@.len() == 8
        &&& self.reserved_a@.len() == 15
        &&& self.kernel_desc@.len() == 28
        &&& self.reserved_b@.len() == 16
        &&& self.arm9_flag_ext@.len() == 11
    }

    pub open spec fn parses(self, b: Seq<u8>, off: int) -> bool {
        &&& self.program_id == le64_at(b, off)
        &&& self.core_version == le32_at(b, off + 8)
        &&& self.core_flag.parses(le32_at(b, off + 12))
        &&& self.resource_limit_desc@.len() == 16
        &&& forall|k: int|
            0 <= k < 16 ==> self.resource_limit_desc@[k] == le16_at(b, (off + 16) + 2 * k)
        &&& self.extdata_id == le64_at(b, off + 48)
        &&& self.system_savedata_id@.len() == 2
        &&& forall|k: int|
            0 <= k < 2 ==> self.system_savedata_id@[k] == le32_at(b, (off + 56) + 4 * k)
        &&& self.storage_access_id == le64_at(b, off + 64)
        &&& self.filesystem_flag == le64_at(b, off + 72)
        &&& self.services@.len() == 34
        &&& forall|k: int|
            0 <= k < 34 ==> (#[trigger] self.services@[k])@ == b.subrange(
                (off + 80) + k * 8,
                (off + 80) + (k + 1) * 8,
            )
        &&& self.reserved_a@ == b.subrange(off + 352, off + 367)
        &&& self.resource_limit_category == b[off + 367]
        &&& self.kernel_desc@.len() == 28
        &&& forall|k: int| 0 <= k < 28 ==> self.kernel_desc@[k] == le32_at(b, (off + 368) + 4 * k)
        &&& self.reserved_b@ == b.subrange(off + 480, off + 496)
        &&& self.arm9_flag == le32_at(b, off + 496)
        &&& self.arm9_flag_ext@ == b.subrange(off + 500, off + 511)
        &&& self.arm9_flag_version == b[off + 511]
    }

    pub open spec fn ser(self) -> Seq<u8> {
        spec_u64_to_le_bytes(self.program_id) + spec_u32_to_le_bytes(self.core_version)
            + spec_u32_to_le_bytes(self.core_flag.word()) + ser_u16s(self.resource_limit_desc@)
            + spec_u64_to_le_bytes(self.extdata_id) + ser_u32s(self.system_savedata_id@)
            + spec_u64_to_le_bytes(self.storage_access_id) + spec_u64_to_le_bytes(
            self.filesystem_flag,
        ) + ser_rows(self.services@) + self.reserved_a@ + seq![self.resource_limit_category]
            + ser_u32s(self.kernel_desc@) + self.reserved_b@ + spec_u32_to_le_bytes(self.arm9_flag)
            + self.arm9_flag_ext@ + seq![self.arm9_flag_version]
    }

    pub proof fn lemma_wf_ser_len(self)
        requires
            self.wf(),
        ensures
            self.ser().len() == 512,
    {
        lemma_auto_spec_u32_to_from_le_bytes();
        lemma_auto_spec_u64_to_from_le_bytes();
        lemma_ser_u16s_len(self.resource_limit_desc@);
        lemma_ser_u32s_len(self.system_savedata_id@);
        lemma_ser_rows_len(self.services@, 8);
        lemma_ser_u32s_len(self.kernel_desc@);
    }

    pub proof fn lemma_round_trip(self, b: Seq<u8>, off: int)
        requires
            0 <= off,
            off + 512 <= b.len(),
            self.parses(b, off),
        ensures
            self.ser() == b.subrange(off, off + 512),
    {
        lemma_le64_rt(b, off);
        lemma_le32_rt(b, off + 8);
        lemma_le32_rt(b, off + 12);
        lemma_core_flag_rt(self.core_flag, le32_at(b, off + 12));
        lemma_ser_u16s_rt(self.resource_limit_desc@, b, off + 16, 16);
        lemma_le64_rt(b, off + 48);
        lemma_ser_u32s_rt(self.system_savedata_id@, b, off + 56, 2);
        lemma_le64_rt(b, off + 64);
        lemma_le64_rt(b, off + 72);
        lemma_ser_rows_rt(self.services@, b, off + 80, 34, 8);
        assert(seq![self.resource_limit_category] =~= b.subrange(off + 367, off + 368));
        lemma_ser_u32s_rt(self.kernel_desc@, b, off + 368, 28);
        lemma_le32_rt(b, off + 496);
        assert(seq![self.arm9_flag_version] =~= b.subrange(off + 511, off + 512));
        lemma_concat_sub(b, off, off + 8, off + 12);
        lemma_concat_sub(b, off, off + 12, off + 16);
        lemma_concat_sub(b, off, off + 16, off + 48);
        lemma_concat_sub(b, off, off + 48, off + 56);
        lemma_concat_sub(b, off, off + 56, off + 64);
        lemma_concat_sub(b, off, off + 64, off + 72);
        lemma_concat_sub(b, off, off + 72, off + 80);
        lemma_concat_sub(b, off, off + 80, off + 352);
        lemma_concat_sub(b, off, off + 352, off + 367);
        lemma_concat_sub(b, off, off + 367, off + 368);
        lemma_concat_sub(b, off, off + 368, off + 480);
        lemma_concat_sub(b, off, off + 480, off + 496);
        lemma_concat_sub(b, off, off + 496, off + 500);
        lemma_concat_sub(b, off, off + 500, off + 511);
        lemma_concat_sub(b, off, off + 511, off + 512);
    }

    pub fn read_at(data: &[u8], off: usize) -> (r: ExheaderAccessControl)
        requires
            off + 512 <= data@.len(),
        ensures
            r.parses(data@, off as int),
            r.wf(),
    {
        let _n: usize = data.len();
        let cf = get_u32(data, off + 12);
        ExheaderAccessControl {
            program_id: get_u64(data, off),
            core_version: get_u32(data, off + 8),
            core_flag: ExheaderCoreFlag {
                enable_l2_cache: cf & 1,
                high_cpu_speed: (cf >> 1) & 1,
                reserved_a: (cf >> 2) & 0x3f,
                n3ds_system_mode: (cf >> 8) & 0xf,
                reserved_b: (cf >> 12) & 0xf,
                ideal_processor: (cf >> 16) & 3,
                affinity_mask: (cf >> 18) & 3,
                system_mode: (cf >> 20) & 0xf,
                priority: (cf >> 24) & 0xff,
            },
            resource_limit_desc: get_u16s(data, off + 16, 16),
            extdata_id: get_u64(data, off + 48),
            system_savedata_id: get_u32s(data, off + 56, 2),
            storage_access_id: get_u64(data, off + 64),
            filesystem_flag: get_u64(data, off + 72),
            services: get_rows(data, off + 80, 34, 8),
            reserved_a: get_bytes(data, off + 352, 15),
            resource_limit_category: data[off + 367],
            kernel_desc: get_u32s(data, off + 368, 28),
            reserved_b: get_bytes(data, off + 480, 16),
            arm9_flag: get_u32(data, off + 496),
            arm9_flag_ext: get_bytes(data, off + 500, 11),
            arm9_flag_version: data[off + 511],
        }
    }

    pub fn write_to(&self, out: &mut Vec<u8>)
        ensures
            final(out)@ == old(out)@ + self.ser(),
    {
        put_u64(out, self.program_id);
        put_u32(out, self.core_version);
        put_u32(
            out,
            self.core_flag.enable_l2_cache | (self.core_flag.high_cpu_speed << 1) | (
            self.core_flag.reserved_a << 2) | (self.core_flag.n3ds_system_mode << 8) | (
            self.core_flag.reserved_b << 12) | (self.core_flag.ideal_processor << 16) | (
            self.core_flag.affinity_mask << 18) | (self.core_flag.system_mode << 20) | (
            self.core_flag.priority << 24),
        );
        put_u16s(out, &self.resource_limit_desc);
        put_u64(out, self.extdata_id);
        put_u32s(out, &self.system_savedata_id);
        put_u64(out, self.storage_access_id);
        put_u64(out, self.filesystem_flag);
        put_rows(out, &self.services);
        put_bytes(out, &self.reserved_a);
        put_byte(out, self.resource_limit_category);
        put_u32s(out, &self.kernel_desc);
        put_bytes(out, &self.reserved_b);
        put_u32(out, self.arm9_flag);
        put_bytes(out, &self.arm9_flag_ext);
        put_byte(out, self.arm9_flag_version);
    }
}

#[derive(Clone, Debug)]
pub struct Exheader {
    pub name: Vec<u8>,
    pub reserved_a: Vec<u8>,
    pub system_control_flag: ExheaderSystemControlFlag,
    pub remaster_version: u16,
    pub segment_text: ExheaderCodeSegment,
    pub stack_size: u32,
    pub segment_ro: ExheaderCodeSegment,
    pub reserved_b: Vec<u8>,
    pub segment_data: ExheaderCodeSegment,
    pub bss_size: u32,
    pub dependencies: Vec<u64>,
    pub save_data_size: u64,
    pub jump_id: u64,
    pub reserved_c: Vec<u8>,
    pub access_control: ExheaderAccessControl,
    pub signature: Vec<u8>,
    pub public_key: Vec<u8>,
    pub access_control_limit: ExheaderAccessControl,
}

impl Exheader {
    pub open spec fn wf(self) -> bool {
        &&& self.name@.len() == 8
        &&& self.reserved_a@.len() == 5
        &&& self.reserved_b@.len() == 4
        &&& self.dependencies@.len() == 48
        &&& self.reserved_c@.len() == 48
        &&& self.access_control.wf()
        &&& self.signature@.len() == 256
        &&& self.public_key@.len() == 256
        &&& self.access_control_limit.wf()
    }

    pub open spec fn parses(self, b: Seq<u8>) -> bool {
        &&& self.name@ == b.subrange(0, 8)
        &&& self.reserved_a@ == b.subrange(8, 13)
        &&& self.system_control_flag.parses(b[13])
        &&& self.remaster_version == le16_at(b, 14)
        &&& self.segment_text.parses(b, 16)
        &&& self.stack_size == le32_at(b, 28)
        &&& self.segment_ro.parses(b, 32)
        &&& self.reserved_b@ == b.subrange(44, 48)
        &&& self.segment_data.parses(b, 48)
        &&& self.bss_size == le32_at(b, 60)
        &&& self.dependencies@.len() == 48
        &&& forall|k: int| 0 <= k < 48 ==> self.dependencies@[k] == le64_at(b, 64 + 8 * k)
        &&& self.save_data_size == le64_at(b, 448)
        &&& self.jump_id == le64_at(b, 456)
        &&& self.reserved_c@ == b.subrange(464, 512)
        &&& self.access_control.parses(b, 512)
        &&& self.signature@ == b.subrange(1024, 1280)
        &&& self.public_key@ == b.subrange(1280, 1536)
        &&& self.access_control_limit.parses(b, 1536)
    }

    pub open spec fn ser(self) -> Seq<u8> {
        self.name@ + self.reserved_a@ + seq![self.system_control_flag.byte()]
            + spec_u16_to_le_bytes(self.remaster_version) + self.segment_text.ser()
            + spec_u32_to_le_bytes(self.stack_size) + self.segment_ro.ser() + self.reserved_b@
            + self.segment_data.ser() + spec_u32_to_le_bytes(self.bss_size) + ser_u64s(
            self.dependencies@,
        ) + spec_u64_to_le_bytes(self.save_data_size) + spec_u64_to_le_bytes(self.jump_id)
            + self.reserved_c@ + self.access_control.ser() + self.signature@ + self.public_key@
            + self.access_control_limit.ser()
    }

    pub proof fn lemma_wf_ser_len(self)
        requires
            self.wf(),
        ensures
            self.ser().len() == 0x800,
    {
        lemma_auto_spec_u16_to_from_le_bytes();
        lemma_auto_spec_u32_to_from_le_bytes();
        lemma_auto_spec_u64_to_from_le_bytes();
        lemma_ser_u64s_len(self.dependencies@);
        self.access_control.lemma_wf_ser_len();
        self.access_control_limit.lemma_wf_ser_len();
    }

    /// Parsing a 0x800-byte extended header block and serializing the result
    /// returns the same bytes.
    pub proof fn lemma_round_trip(self, b: Seq<u8>)
        requires
            b.len() == 0x800,
            self.parses(b),
        ensures
            self.ser() == b,
    {
        assert(seq![self.system_control_flag.byte()] =~= b.subrange(13, 14)) by {
            lemma_system_control_flag_rt(self.system_control_flag, b[13]);
        }
        lemma_le16_rt(b, 14);
        self.segment_text.lemma_round_trip(b, 16);
        lemma_le32_rt(b, 28);
        self.segment_ro.lemma_round_trip(b, 32);
        self.segment_data.lemma_round_trip(b, 48);
        lemma_le32_rt(b, 60);
        lemma_ser_u64s_rt(self.dependencies@, b, 64, 48);
        lemma_le64_rt(b, 448);
        lemma_le64_rt(b, 456);
        self.access_control.lemma_round_trip(b, 512);
        self.access_control_limit.lemma_round_trip(b, 1536);
        lemma_concat_sub(b, 0, 8, 13);
        lemma_concat_sub(b, 0, 13, 14);
        lemma_concat_sub(b, 0, 14, 16);
        lemma_concat_sub(b, 0, 16, 28);
        lemma_concat_sub(b, 0, 28, 32);
        lemma_concat_sub(b, 0, 32, 44);
        lemma_concat_sub(b, 0, 44, 48);
        lemma_concat_sub(b, 0, 48, 60);
        lemma_concat_sub(b, 0, 60, 64);
        lemma_concat_sub(b, 0, 64, 448);
        lemma_concat_sub(b, 0, 448, 456);
        lemma_concat_sub(b, 0, 456, 464);
        lemma_concat_sub(b, 0, 464, 512);
        lemma_concat_sub(b, 0, 512, 1024);
        lemma_concat_sub(b, 0, 1024, 1280);
        lemma_concat_sub(b, 0, 1280, 1536);
        lemma_concat_sub(b, 0, 1536, 2048);
        assert(b.subrange(0, 0x800) =~= b);
    }

    pub fn read_bytes(data: &[u8]) -> (r: Exheader)
        requires
            data@.len() == 0x800,
        ensures
            r.parses(data@),
            r.wf(),
    {
        let scf = data[13];
        Exheader {
            name: get_bytes(data, 0, 8),
            reserved_a: get_bytes(data, 8, 5),
            system_control_flag: ExheaderSystemControlFlag {
                compress_code: scf & 1,
                sd_app: (scf >> 1) & 1,
                reserved: (scf >> 2) & 0x3f,
            },
            remaster_version: get_u16(data, 14),
            segment_text: ExheaderCodeSegment::read_at(data, 16),
            stack_size: get_u32(data, 28),
            segment_ro: ExheaderCodeSegment::read_at(data, 32),
            reserved_b: get_bytes(data, 44, 4),
            segment_data: ExheaderCodeSegment::read_at(data, 48),
            bss_size: get_u32(data, 60),
            dependencies: get_u64s(data, 64, 48),
            save_data_size: get_u64(data, 448),
            jump_id: get_u64(data, 456),
            reserved_c: get_bytes(data, 464, 48),
            access_control: ExheaderAccessControl::read_at(data, 512),
            signature: get_bytes(data, 1024, 256),
            public_key: get_bytes(data, 1280, 256),
            access_control_limit: ExheaderAccessControl::read_at(data, 1536),
        }
    }

    pub fn write_bytes(&self) -> (r: Vec<u8>)
        ensures
            r@ == self.ser(),
    {
        let mut out: Vec<u8> = Vec::new();
        put_bytes(&mut out, &self.name);
        put_bytes(&mut out, &self.reserved_a);
        put_byte(
            &mut out,
            self.system_control_flag.compress_code | (self.system_control_flag.sd_app << 1) | (
            self.system_control_flag.reserved << 2),
        );
        put_u16(&mut out, self.remaster_version);
        put_u32(&mut out, self.segment_text.address);
        put_u32(&mut out, self.segment_text.num_pages);
        put_u32(&mut out, self.segment_text.code_size);
        put_u32(&mut out, self.stack_size);
        put_u32(&mut out, self.segment_ro.address);
        put_u32(&mut out, self.segment_ro.num_pages);
        put_u32(&mut out, self.segment_ro.code_size);
        put_bytes(&mut out, &self.reserved_b);
        put_u32(&mut out, self.segment_data.address);
        put_u32(&mut out, self.segment_data.num_pages);
        put_u32(&mut out, self.segment_data.code_size);
        put_u32(&mut out, self.bss_size);
        put_u64s(&mut out, &self.dependencies);
        put_u64(&mut out, self.save_data_size);
        put_u64(&mut out, self.jump_id);
        put_bytes(&mut out, &self.reserved_c);
        self.access_control.write_to(&mut out);
        put_bytes(&mut out, &self.signature);
        put_bytes(&mut out, &self.public_key);
        self.access_control_limit.write_to(&mut out);
        out
    }
}

/// One entry of the multi-partition container's table: the partition's
/// start and length, in 0x200-byte media units.
#[derive(Clone, Debug)]
pub struct NcsdPartition {
    pub offset: u32,
    pub size: u32,
}

impl NcsdPartition {
    pub open spec fn parses(self, b: Seq<u8>, off: int) -> bool {
        &&& self.offset == le32_at(b, off)
        &&& self.size == le32_at(b, off + 4)
    }

    /// The partition's byte offset within the container.
    pub fn byte_offset(&self) -> (r: u64)
        ensures
            r == self.offset * 0x200,
    {
        (self.offset as u64) * 0x200
    }
}

/// Reads the eight-entry partition table stored at offset 0x120 of a
/// multi-partition container (the 64 table bytes are passed in).
pub fn ncsd_partitions(table: &[u8]) -> (r: Vec<NcsdPartition>)
    requires
        table@.len() == 0x40,
    ensures
        r@.len() == 8,
        forall|k: int| 0 <= k < 8 ==> (#[trigger] r@[k]).parses(table@, 8 * k),
{
    let mut r: Vec<NcsdPartition> = Vec::new();
    let mut i: usize = 0;
    while i < 8
        invariant
            i <= 8,
            table@.len() == 0x40,
            r@.len() == i,
            forall|k: int| 0 <= k < i ==> (#[trigger] r@[k]).parses(table@, 8 * k),
        decreases 8 - i,
    {
        r.push(
            NcsdPartition { offset: get_u32(table, 8 * i), size: get_u32(table, 8 * i + 4) },
        );
        i = i + 1;
    }
    r
}

#[derive(Clone, Debug)]
pub struct SmdhTitle {
    pub short: Vec<u16>,
    pub long: Vec<u16>,
    pub publisher: Vec<u16>,
}

impl SmdhTitle {
    pub open spec fn wf(self) -> bool {
        &&& self.short@.len() == 64
        &&& self.long@.len() == 128
        &&& self.publisher@.len() == 64
    }

    pub open spec fn parses(self, b: Seq<u8>, off: int) -> bool {
        &&& self.short@.len() == 64
        &&& forall|k: int| 0 <= k < 64 ==> self.short@[k] == le16_at(b, off + 2 * k)
        &&& self.long@.len() == 128
        &&& forall|k: int| 0 <= k < 128 ==> self.long@[k] == le16_at(b, (off + 128) + 2 * k)
        &&& self.publisher@.len() == 64
        &&& forall|k: int| 0 <= k < 64 ==> self.publisher@[k] == le16_at(b, (off + 384) + 2 * k)
    }

    pub open spec fn ser(self) -> Seq<u8> {
        ser_u16s(self.short@) + ser_u16s(self.long@) + ser_u16s(self.publisher@)
    }

    pub proof fn lemma_round_trip(self, b: Seq<u8>, off: int)
        requires
            0 <= off,
            off + 512 <= b.len(),
            self.parses(b, off),
        ensures
            self.ser() == b.subrange(off, off + 512),
    {
        lemma_ser_u16s_rt(self.short@, b, off, 64);
        lemma_ser_u16s_rt(self.long@, b, off + 128, 128);
        lemma_ser_u16s_rt(self.publisher@, b, off + 384, 64);
        lemma_concat_sub(b, off, off + 128, off + 384);
        lemma_concat_sub(b, off, off + 384, off + 512);
    }

    pub fn read_at(data: &[u8], off: usize) -> (r: SmdhTitle)
        requires
            off + 512 <= data@.len(),
        ensures
            r.parses(data@, off as int),
            r.wf(),
    {
        let _n: usize = data.len();
        SmdhTitle {
            short: get_u16s(data, off, 64),
            long: get_u16s(data, off + 128, 128),
            publisher: get_u16s(data, off + 384, 64),
        }
    }
}

/// The concatenated serializations of a sequence of SMDH title entries.
pub open spec fn ser_titles(v: Seq<SmdhTitle>) -> Seq<u8>
    decreases v.len(),
{
    if v.len() == 0 {
        Seq::empty()
    } else {
        ser_titles(v.drop_last()) + v.last().ser()
    }
}

pub proof fn lemma_ser_titles_rt(v: Seq<SmdhTitle>, b: Seq<u8>, off: int, n: int)
    requires
        0 <= off,
        n >= 0,
        off + 512 * n <= b.len(),
        v.len() == n,
        forall|k: int| 0 <= k < n ==> (#[trigger] v[k]).parses(b, off + 512 * k),
    ensures
        ser_titles(v) == b.subrange(off, off + 512 * n),
    decreases n,
{
    if n == 0 {
        assert(ser_titles(v) =~= b.subrange(off, off));
    } else {
        let t = v.drop_last();
        lemma_ser_titles_rt(t, b, off, n - 1);
        assert(v[n - 1].parses(b, off + 512 * (n - 1)));
        v[n - 1].lemma_round_trip(b, off + 512 * (n - 1));
        lemma_concat_sub(b, off, off + 512 * (n - 1), off + 512 * n);
    }
}

pub proof fn lemma_ser_titles_len(v: Seq<SmdhTitle>)
    requires
        forall|k: int| 0 <= k < v.len() ==> (#[trigger] v[k]).wf(),
    ensures
        ser_titles(v).len() == 512 * v.len(),
    decreases v.len(),
{
    if v.len() > 0 {
        assert(v[v.len() - 1].wf());
        lemma_ser_u16s_len(v.last().short@);
        lemma_ser_u16s_len(v.last().long@);
        lemma_ser_u16s_len(v.last().publisher@);
        lemma_ser_titles_len(v.drop_last());
    }
}

pub proof fn lemma_ser_titles_push(v: Seq<SmdhTitle>, x: SmdhTitle)
    ensures
        ser_titles(v.push(x)) == ser_titles(v) + x.ser(),
{
    assert(v.push(x).drop_last() =~= v);
    assert(v.push(x).last() == x);
}

#[derive(Clone, Debug)]
pub struct Smdh {
    pub magic: Vec<u8>,
    pub version: u16,
    pub reserved_a: u16,
    pub title: Vec<SmdhTitle>,
    pub ratings: Vec<u8>,
    pub region_lockout: u32,
    pub match_maker_id: u32,
    pub match_maker_bit_id: u64,
    pub flags: u32,
    pub eula_version: u16,
    pub reserved_b: u16,
    pub banner_animation_frame: u32,
    pub cec_id: u32,
    pub reserved_c: Vec<u8>,
    pub small_icon: Vec<u16>,
    pub large_icon: Vec<u16>,
}

impl Smdh {
    pub open spec fn wf(self) -> bool {
        &&& self.magic@.len() == 4
        &&& self.title@.len() == 16
        &&& forall|k: int| 0 <= k < 16 ==> (#[trigger] self.title@[k]).wf()
        &&& self.ratings@.len() == 16
        &&& self.reserved_c@.len() == 8
        &&& self.small_icon@.len() == 576
        &&& self.large_icon@.len() == 2304
    }

    pub open spec fn parses(self, b: Seq<u8>) -> bool {
        &&& self.magic@ == b.subrange(0, 4)
        &&& self.version == le16_at(b, 4)
        &&& self.reserved_a == le16_at(b, 6)
        &&& self.title@.len() == 16
        &&& forall|k: int| 0 <= k < 16 ==> (#[trigger] self.title@[k]).parses(b, 8 + 512 * k)
        &&& self.ratings@ == b.subrange(0x2008, 0x2018)
        &&& self.region_lockout == le32_at(b, 0x2018)
        &&& self.match_maker_id == le32_at(b, 0x201c)
        &&& self.match_maker_bit_id == le64_at(b, 0x2020)
        &&& self.flags == le32_at(b, 0x2028)
        &&& self.eula_version == le16_at(b, 0x202c)
        &&& self.reserved_b == le16_at(b, 0x202e)
        &&& self.banner_animation_frame == le32_at(b, 0x2030)
        &&& self.cec_id == le32_at(b, 0x2034)
        &&& self.reserved_c@ == b.subrange(0x2038, 0x2040)
        &&& self.small_icon@.len() == 576
        &&& forall|k: int| 0 <= k < 576 ==> self.small_icon@[k] == le16_at(b, 0x2040 + 2 * k)
        &&& self.large_icon@.len() == 2304
        &&& forall|k: int| 0 <= k < 2304 ==> self.large_icon@[k] == le16_at(b, 0x24c0 + 2 * k)
    }

    pub open spec fn ser(self) -> Seq<u8> {
        self.magic@ + spec_u16_to_le_bytes(self.version) + spec_u16_to_le_bytes(self.reserved_a)
            + ser_titles(self.title@) + self.ratings@ + spec_u32_to_le_bytes(self.region_lockout)
            + spec_u32_to_le_bytes(self.match_maker_id) + spec_u64_to_le_bytes(
            self.match_maker_bit_id,
        ) + spec_u32_to_le_bytes(self.flags) + spec_u16_to_le_bytes(self.eula_version)
            + spec_u16_to_le_bytes(self.reserved_b) + spec_u32_to_le_bytes(
            self.banner_animation_frame,
        ) + spec_u32_to_le_bytes(self.cec_id) + self.reserved_c@ + ser_u16s(self.small_icon@)
            + ser_u16s(self.large_icon@)
    }

    pub proof fn lemma_wf_ser_len(self)
        requires
            self.wf(),
        ensures
            self.ser().len() == 0x36c0,
    {
        lemma_auto_spec_u16_to_from_le_bytes();
        lemma_auto_spec_u32_to_from_le_bytes();
        lemma_auto_spec_u64_to_from_le_bytes();
        lemma_ser_titles_len(self.title@);
        lemma_ser_u16s_len(self.small_icon@);
        lemma_ser_u16s_len(self.large_icon@);
    }

    /// Parsing a 0x36C0-byte SMDH block and serializing the result returns
    /// the same bytes.
    pub proof fn lemma_round_trip(self, b: Seq<u8>)
        requires
            b.len() == 0x36c0,
            self.parses(b),
        ensures
            self.ser() == b,
    {
        lemma_le16_rt(b, 4);
        lemma_le16_rt(b, 6);
        lemma_ser_titles_rt(self.title@, b, 8, 16);
        lemma_le32_rt(b, 0x2018);
        lemma_le32_rt(b, 0x201c);
        lemma_le64_rt(b, 0x2020);
        lemma_le32_rt(b, 0x2028);
        lemma_le16_rt(b, 0x202c);
        lemma_le16_rt(b, 0x202e);
        lemma_le32_rt(b, 0x2030);
        lemma_le32_rt(b, 0x2034);
        lemma_ser_u16s_rt(self.small_icon@, b, 0x2040, 576);
        lemma_ser_u16s_rt(self.large_icon@, b, 0x24c0, 2304);
        lemma_concat_sub(b, 0, 4, 6);
        lemma_concat_sub(b, 0, 6, 8);
        lemma_concat_sub(b, 0, 8, 0x2008);
        lemma_concat_sub(b, 0, 0x2008, 0x2018);
        lemma_concat_sub(b, 0, 0x2018, 0x201c);
        lemma_concat_sub(b, 0, 0x201c, 0x2020);
        lemma_concat_sub(b, 0, 0x2020, 0x2028);
        lemma_concat_sub(b, 0, 0x2028, 0x202c);
        lemma_concat_sub(b, 0, 0x202c, 0x202e);
        lemma_concat_sub(b, 0, 0x202e, 0x2030);
        lemma_concat_sub(b, 0, 0x2030, 0x2034);
        lemma_concat_sub(b, 0, 0x2034, 0x2038);
        lemma_concat_sub(b, 0, 0x2038, 0x2040);
        lemma_concat_sub(b, 0, 0x2040, 0x24c0);
        lemma_concat_sub(b, 0, 0x24c0, 0x36c0);
        assert(b.subrange(0, 0x36c0) =~= b);
    }

    pub fn read_bytes(data: &[u8]) -> (r: Smdh)
        requires
            data@.len() == 0x36c0,
        ensures
            r.parses(data@),
            r.wf(),
    {
        let mut title: Vec<SmdhTitle> = Vec::new();
        let mut i: usize = 0;
        while i < 16
            invariant
                i <= 16,
                data@.len() == 0x36c0,
                title@.len() == i,
                forall|k: int| 0 <= k < i ==> (#[trigger] title@[k]).parses(data@, 8 + 512 * k),
                forall|k: int| 0 <= k < i ==> (#[trigger] title@[k]).wf(),
            decreases 16 - i,
        {
            title.push(SmdhTitle::read_at(data, 8 + 512 * i));
            i = i + 1;
        }
        Smdh {
            magic: get_bytes(data, 0, 4),
            version: get_u16(data, 4),
            reserved_a: get_u16(data, 6),
            title,
            ratings: get_bytes(data, 0x2008, 16),
            region_lockout: get_u32(data, 0x2018),
            match_maker_id: get_u32(data, 0x201c),
            match_maker_bit_id: get_u64(data, 0x2020),
            flags: get_u32(data, 0x2028),
            eula_version: get_u16(data, 0x202c),
            reserved_b: get_u16(data, 0x202e),
            banner_animation_frame: get_u32(data, 0x2030),
            cec_id: get_u32(data, 0x2034),
            reserved_c: get_bytes(data, 0x2038, 8),
            small_icon: get_u16s(data, 0x2040, 576),
            large_icon: get_u16s(data, 0x24c0, 2304),
        }
    }

    pub fn write_bytes(&self) -> (r: Vec<u8>)
        ensures
            r@ == self.ser(),
    {
        let mut out: Vec<u8> = Vec::new();
        put_bytes(&mut out, &self.magic);
        put_u16(&mut out, self.version);
        put_u16(&mut out, self.reserved_a);
        let mut i: usize = 0;
        let ghost prefix = out@;
        while i < self.title.len()
            invariant
                i <= self.title@.len(),
                out@ == prefix + ser_titles(self.title@.take(i as int)),
            decreases self.title@.len() - i,
        {
            proof {
                assert(self.title@.take(i + 1) =~= self.title@.take(i as int).push(
                    self.title@[i as int],
                ));
                lemma_ser_titles_push(self.title@.take(i as int), self.title@[i as int]);
            }
            put_u16s(&mut out, &self.title[i].short);
            put_u16s(&mut out, &self.title[i].long);
            put_u16s(&mut out, &self.title[i].publisher);
            i = i + 1;
        }
        proof {
            assert(self.title@.take(self.title@.len() as int) =~= self.title@);
        }
        put_bytes(&mut out, &self.ratings);
        put_u32(&mut out, self.region_lockout);
        put_u32(&mut out, self.match_maker_id);
        put_u64(&mut out, self.match_maker_bit_id);
        put_u32(&mut out, self.flags);
        put_u16(&mut out, self.eula_version);
        put_u16(&mut out, self.reserved_b);
        put_u32(&mut out, self.banner_animation_frame);
        put_u32(&mut out, self.cec_id);
        put_bytes(&mut out, &self.reserved_c);
        put_u16s(&mut out, &self.small_icon);
        put_u16s(&mut out, &self.large_icon);
        out
    }
}

} // verus!
