//! The chunked-upload session: per-region verification with the hash-first
//! decrypt policy, the crypto-flag repair sweep, and the four-phase state
//! machine driven by client input.
use crate::aes::{aes_ctr_decrypt, spec_get_ncch_key, get_ncch_key, xor_keystream};
use crate::api::{AppendRequest, NcchExist, PostNcchResponse};
use crate::data_format::{Exheader, ExefsHeader, NcchHeader, NcchKeyConfig, Smdh};
use crate::record::{is_record_of, NcchRecord};
use crate::rsa2048::{sha256, sha256_of, spec_verify_signature, verify_signature};
use vstd::prelude::*;

verus! {

/// The process-wide verification keys and scrambler constants.
#[derive(Debug, Clone)]
pub struct NcchKeys {
    pub exheader_public_key: Vec<u8>,
    pub cfa_public_key: Vec<u8>,
    pub scrambler: Vec<u8>,
    pub key_x: Vec<u8>,
}

impl NcchKeys {
    pub open spec fn wf(self) -> bool {
        &&& self.scrambler@.len() == 16
        &&& self.key_x@.len() == 16
    }

    /// A byte-for-byte copy of the key set.
    pub fn duplicate(&self) -> (r: NcchKeys)
        ensures
            keys_eqv(r, *self),
            r.wf() == self.wf(),
    {
        NcchKeys {
            exheader_public_key: vstd::slice::slice_to_vec(self.exheader_public_key.as_slice()),
            cfa_public_key: vstd::slice::slice_to_vec(self.cfa_public_key.as_slice()),
            scrambler: vstd::slice::slice_to_vec(self.scrambler.as_slice()),
            key_x: vstd::slice::slice_to_vec(self.key_x.as_slice()),
        }
    }
}

/// Two key sets holding the same bytes.
pub open spec fn keys_eqv(a: NcchKeys, b: NcchKeys) -> bool {
    &&& a.exheader_public_key@ == b.exheader_public_key@
    &&& a.cfa_public_key@ == b.cfa_public_key@
    &&& a.scrambler@ == b.scrambler@
    &&& a.key_x@ == b.key_x@
}

/// Whether the signed region of the serialized header checks out against
/// the header's own signature under `key`.
pub open spec fn sig_ok(h: NcchHeader, key: Seq<u8>) -> bool {
    spec_verify_signature(h.ser().subrange(0x100, 0x200), h.signature@, key)
}

/// `h` with its crypto flags rewritten to one sweep candidate: `no_crypto`
/// and `fixed_key` cleared, the given secondary slot and seed flag set.
pub open spec fn with_flags(h: NcchHeader, slot: u8, seed: u8) -> NcchHeader {
    NcchHeader {
        secondary_key_slot: slot,
        key_config: NcchKeyConfig {
            no_crypto: 0,
            fixed_key: 0,
            seed_crypto: seed,
            ..h.key_config
        },
        ..h
    }
}

/// The secondary key slot tried at sweep position `i / 2`.
pub open spec fn candidate_slot(i: int) -> u8 {
    if i / 2 == 0 {
        0
    } else if i / 2 == 1 {
        1
    } else if i / 2 == 2 {
        10
    } else {
        11
    }
}

/// The `i`-th candidate of the repair sweep, in the order it is tried.
pub open spec fn candidate(h: NcchHeader, i: int) -> NcchHeader {
    with_flags(h, candidate_slot(i), (i % 2) as u8)
}

/// The first sweep position whose candidate verifies, from `i` on; 8 when
/// none does.
pub open spec fn first_match(h: NcchHeader, key: Seq<u8>, i: int) -> int
    decreases 8 - i,
{
    if i >= 8 {
        8
    } else if sig_ok(candidate(h, i), key) {
        i
    } else {
        first_match(h, key, i + 1)
    }
}

/// Whether the header is accepted, either as it stands or after the repair
/// sweep.
pub open spec fn fix_accepts(h: NcchHeader, key: Seq<u8>) -> bool {
    sig_ok(h, key) || first_match(h, key, 0) < 8
}

/// The header retained as canonical when `fix_accepts` holds.
pub open spec fn fixed_header(h: NcchHeader, key: Seq<u8>) -> NcchHeader {
    if sig_ok(h, key) {
        h
    } else {
        candidate(h, first_match(h, key, 0))
    }
}

/// What the session knows and which bytes it expects next.
pub enum PostNcchSessionState {
    HeaderNeeded,
    ExheaderNeeded(NcchHeader, Vec<u8>, Vec<u8>, Vec<u8>),
    ExefsNeeded(NcchHeader, Option<Exheader>, Vec<u8>, Vec<u8>),
    IconNeeded(NcchHeader, Option<Exheader>, Vec<u8>, Option<(Vec<u8>, Vec<u8>, u64)>),
    Finished,
    Undefined,
}

impl PostNcchSessionState {
    pub open spec fn wf(self) -> bool {
        match self {
            PostNcchSessionState::HeaderNeeded => true,
            PostNcchSessionState::ExheaderNeeded(h, k, cx, cf) => {
                &&& h.wf()
                &&& h.content_unit_size <= 20
                &&& k@.len() == 16
                &&& cx@.len() == 16
                &&& cf@.len() == 16
            },
            PostNcchSessionState::ExefsNeeded(h, e, k, cf) => {
                &&& h.wf()
                &&& h.content_unit_size <= 20
                &&& (e matches Some(ex) ==> ex.wf())
                &&& k@.len() == 16
                &&& cf@.len() == 16
                &&& exefs_needed_len(h) < 0x1_0000_0000
            },
            PostNcchSessionState::IconNeeded(h, e, hash, crypto) => {
                &&& h.wf()
                &&& h.content_unit_size <= 20
                &&& (e matches Some(ex) ==> ex.wf())
                &&& hash@.len() == 32
                &&& (crypto matches Some((k, c, o)) ==> k@.len() == 16 && c@.len() == 16 && o
                    < 0x2_0000_0000)
            },
            PostNcchSessionState::Finished => true,
            PostNcchSessionState::Undefined => true,
        }
    }
}

/// What the caller must do after a step: send the reply, or insert the
/// record into the catalog and answer from the insert's outcome.
pub enum SessionStep {
    Reply(PostNcchResponse),
    Commit(NcchRecord),
}

/// How the catalog answered an insert.
pub enum CatalogOutcome {
    Inserted,
    Duplicate,
    Failed,
}

/// One live upload, keyed by `id`, stamped at every touch.
pub struct PostNcchSession {
    pub id: u32,
    pub keys: NcchKeys,
    pub last_touch: u64,
    pub state: PostNcchSessionState,
}

impl PostNcchSession {
    pub open spec fn wf(self) -> bool {
        &&& self.keys.wf()
        &&& self.state.wf()
    }
}

impl PostNcchSession {
    /// Verifies the header signature over its serialized form; on failure,
    /// retries with cleared crypto flags sweeping the secondary key slot and
    /// seed flag, keeping the first combination that verifies.
    pub fn verify_and_fix_header(header: &mut NcchHeader, public_key: &[u8]) -> (r: bool)
        requires
            old(header).wf(),
        ensures
            r == fix_accepts(*old(header), public_key@),
            r ==> *final(header) == fixed_header(*old(header), public_key@),
            !r ==> *final(header) == candidate(*old(header), 7),
            final(header).wf(),
    {
        let ghost h0 = *header;
        proof {
            h0.lemma_wf_ser_len();
        }
        let raw = header.write_bytes();
        let signed = vstd::slice::slice_subrange(raw.as_slice(), 0x100, 0x200);
        if verify_signature(signed, header.signature.as_slice(), public_key) {
            return true;
        }
        header.key_config.no_crypto = 0;
        header.key_config.fixed_key = 0;
        proof {
            lemma_first_match_lb(h0, public_key@, 0);
        }
        let mut i: usize = 0;
        while i < 8
            invariant
                i <= 8,
                h0 == *old(header),
                header.signature == h0.signature,
                h0.wf(),
                !sig_ok(h0, public_key@),
                first_match(h0, public_key@, 0) >= i,
                *header == if i == 0 {
                    NcchHeader {
                        key_config: NcchKeyConfig { no_crypto: 0, fixed_key: 0, ..h0.key_config },
                        ..h0
                    }
                } else {
                    candidate(h0, i - 1)
                },
            decreases 8 - i,
        {
            let half = i / 2;
            let slot: u8 = if half == 0 {
                0
            } else if half == 1 {
                1
            } else if half == 2 {
                10
            } else {
                11
            };
            let seed: u8 = (i % 2) as u8;
            header.secondary_key_slot = slot;
            header.key_config.seed_crypto = seed;
            proof {
                assert(*header == candidate(h0, i as int));
                candidate(h0, i as int).lemma_wf_ser_len();
            }
            let raw = header.write_bytes();
            let signed = vstd::slice::slice_subrange(raw.as_slice(), 0x100, 0x200);
            if verify_signature(signed, header.signature.as_slice(), public_key) {
                proof {
                    lemma_first_match_found(h0, public_key@, i as int);
                }
                return true;
            }
            proof {
                lemma_first_match_skip(h0, public_key@, i as int);
            }
            i = i + 1;
        }
        proof {
            assert(first_match(h0, public_key@, 0) >= 8);
        }
        false
    }
}

/// The magic bytes of an NCCH header.
pub open spec fn magic_ncch() -> Seq<u8> {
    seq![0x4eu8, 0x43u8, 0x43u8, 0x48u8]
}

/// The magic bytes of an SMDH block.
pub open spec fn magic_smdh() -> Seq<u8> {
    seq![0x53u8, 0x4du8, 0x44u8, 0x48u8]
}

/// The null-padded name of the icon file in the exefs table.
pub open spec fn icon_name() -> Seq<u8> {
    seq![0x69u8, 0x63u8, 0x6fu8, 0x6eu8, 0u8, 0u8, 0u8, 0u8]
}

/// Big-endian byte `i` of a 64-bit value.
pub open spec fn be64_byte(x: u64, i: int) -> u8 {
    ((x >> ((8 * (7 - i)) as u64)) & 0xff) as u8
}

/// Little-endian byte `i` of a 64-bit value.
pub open spec fn le64_byte(x: u64, i: int) -> u8 {
    ((x >> ((8 * i) as u64)) & 0xff) as u8
}

/// Big-endian byte `i` of a 32-bit value.
pub open spec fn be32_byte(x: u32, i: int) -> u8 {
    ((x >> ((8 * (3 - i)) as u32)) & 0xff) as u8
}

/// The byte size of one content unit.
pub open spec fn unit_of(h: NcchHeader) -> int {
    (0x200u64 << (h.content_unit_size as u64)) as int
}

/// The exefs length word of the version-1 counter: the exefs size in bytes,
/// truncated to 32 bits.
pub open spec fn exefs_len_word(h: NcchHeader) -> u32 {
    (h.exefs_size * unit_of(h)) as u32
}

/// The AES counter for the extended header region.
pub open spec fn ctr_exheader_of(h: NcchHeader) -> Seq<u8> {
    if h.version == 0 || h.version == 2 {
        Seq::new(
            16,
            |i: int|
                if i < 8 {
                    be64_byte(h.partition_id, i)
                } else if i == 8 {
                    1u8
                } else {
                    0u8
                },
        )
    } else if h.version == 1 {
        Seq::new(
            16,
            |i: int|
                if i < 8 {
                    le64_byte(h.partition_id, i)
                } else if i >= 12 {
                    be32_byte(0x200u32, i - 12)
                } else {
                    0u8
                },
        )
    } else {
        Seq::new(16, |i: int| 0u8)
    }
}

/// The AES counter for the exefs region; unknown container versions get the
/// zero counter, so an encrypted region will fail its hash check.
pub open spec fn ctr_exefs_of(h: NcchHeader) -> Seq<u8> {
    if h.version == 0 || h.version == 2 {
        Seq::new(
            16,
            |i: int|
                if i < 8 {
                    be64_byte(h.partition_id, i)
                } else if i == 8 {
                    2u8
                } else {
                    0u8
                },
        )
    } else if h.version == 1 {
        Seq::new(
            16,
            |i: int|
                if i < 8 {
                    le64_byte(h.partition_id, i)
                } else if i >= 12 {
                    be32_byte(exefs_len_word(h), i - 12)
                } else {
                    0u8
                },
        )
    } else {
        Seq::new(16, |i: int| 0u8)
    }
}

/// The region key: all zero under the fixed-key flag, otherwise the
/// scrambled per-title key seeded from the first signature bytes.
pub open spec fn spec_ncch_key(h: NcchHeader, keys: NcchKeys) -> Seq<u8> {
    if h.key_config.fixed_key != 0 {
        Seq::new(16, |i: int| 0u8)
    } else {
        spec_get_ncch_key(h.signature@.take(16), keys.key_x@, keys.scrambler@)
    }
}

/// The byte offset of the exefs region.
pub open spec fn exefs_offset_bytes(h: NcchHeader) -> int {
    h.exefs_offset * unit_of(h)
}

/// The byte length the exefs request asks for: the hashed region, but at
/// least one header block.
pub open spec fn exefs_needed_len(h: NcchHeader) -> int {
    if h.exefs_hash_region_size * unit_of(h) > 0x200 {
        h.exefs_hash_region_size * unit_of(h)
    } else {
        0x200
    }
}

/// The index of the first icon entry in the file table; the table length
/// when there is none.
pub open spec fn first_icon_index(files: Seq<crate::data_format::ExefsFile>, i: int) -> int
    decreases files.len() - i,
{
    if i >= files.len() {
        files.len() as int
    } else if files[i].name@ == icon_name() {
        i
    } else {
        first_icon_index(files, i + 1)
    }
}

/// A finished upload hands the caller the record to insert.
pub open spec fn finalize_outcome(
    h: NcchHeader,
    e: Option<Exheader>,
    s: Option<Smdh>,
    step: SessionStep,
    st: PostNcchSessionState,
) -> bool {
    &&& st is Finished
    &&& step matches SessionStep::Commit(rec) && is_record_of(rec, h, e, s)
}

/// After the header (and optional exheader) are verified: either the exefs
/// region is requested, or the upload finalizes without one.
pub open spec fn request_exefs_outcome(
    id: u32,
    h: NcchHeader,
    e: Option<Exheader>,
    key: Seq<u8>,
    cf: Seq<u8>,
    step: SessionStep,
    st: PostNcchSessionState,
) -> bool {
    if h.exefs_offset != 0 {
        if exefs_offset_bytes(h) <= usize::MAX && exefs_needed_len(h) <= usize::MAX
            && exefs_needed_len(h) < 0x1_0000_0000 {
            &&& step matches SessionStep::Reply(PostNcchResponse::AppendNeeded(a))
                && a.session_id == id && a.offset == exefs_offset_bytes(h) && a.len
                == exefs_needed_len(h)
            &&& st matches PostNcchSessionState::ExefsNeeded(h2, e2, k2, c2) && h2 == h && e2 == e
                && k2@ == key && c2@ == cf
        } else {
            &&& step == SessionStep::Reply(PostNcchResponse::UnexpectedFormat)
            &&& st is Finished
        }
    } else {
        finalize_outcome(h, e, None, step, st)
    }
}

/// What one well-formed parsed header leads to: a format rejection, a
/// request for the extended header, or the data-archive verification path.
pub open spec fn header_outcome(
    keys: NcchKeys,
    id: u32,
    h: NcchHeader,
    step: SessionStep,
    st: PostNcchSessionState,
) -> bool {
    if h.magic@ != magic_ncch() {
        step == SessionStep::Reply(PostNcchResponse::UnexpectedFormat) && st is Finished
    } else if h.content_unit_size > 20 {
        step == SessionStep::Reply(PostNcchResponse::UnexpectedFormat) && st is Finished
    } else if h.exheader_size != 0 {
        if h.exheader_size != 0x400 {
            step == SessionStep::Reply(PostNcchResponse::UnexpectedFormat) && st is Finished
        } else {
            &&& step matches SessionStep::Reply(PostNcchResponse::AppendNeeded(a)) && a.session_id
                == id && a.offset == 0x200 && a.len == 0x800
            &&& st matches PostNcchSessionState::ExheaderNeeded(h2, k2, c1, c2) && h2 == h && k2@
                == spec_ncch_key(h, keys) && c1@ == ctr_exheader_of(h) && c2@ == ctr_exefs_of(h)
        }
    } else {
        if !fix_accepts(h, keys.cfa_public_key@) {
            step == SessionStep::Reply(PostNcchResponse::VerificationFailed) && st is Finished
        } else {
            request_exefs_outcome(
                id,
                fixed_header(h, keys.cfa_public_key@),
                None,
                spec_ncch_key(h, keys),
                ctr_exefs_of(h),
                step,
                st,
            )
        }
    }
}

/// The first protocol round: exactly one header block is accepted.
pub open spec fn header_transition(
    keys: NcchKeys,
    id: u32,
    data: Seq<u8>,
    step: SessionStep,
    st: PostNcchSessionState,
) -> bool {
    if data.len() != 0x200 {
        step == SessionStep::Reply(PostNcchResponse::UnexpectedLength) && st is Finished
    } else {
        exists|h: NcchHeader| h.parses(data) && h.wf() && header_outcome(keys, id, h, step, st)
    }
}

/// The extended-header round: hash-first decrypt, the exheader signature
/// under the fixed key, then the header signature under the embedded key.
pub open spec fn exheader_transition(
    keys: NcchKeys,
    id: u32,
    h: NcchHeader,
    key: Seq<u8>,
    cx: Seq<u8>,
    cf: Seq<u8>,
    data: Seq<u8>,
    step: SessionStep,
    st: PostNcchSessionState,
) -> bool {
    if data.len() != 0x800 {
        step == SessionStep::Reply(PostNcchResponse::UnexpectedLength) && st is Finished
    } else {
        let direct = sha256_of(data.take(0x400)) == h.exheader_hash@;
        let plain = if direct {
            data
        } else {
            xor_keystream(data, key, cx, 0)
        };
        if !direct && sha256_of(plain.take(0x400)) != h.exheader_hash@ {
            step == SessionStep::Reply(PostNcchResponse::VerificationFailed) && st is Finished
        } else {
            exists|e: Exheader|
                e.parses(plain) && e.wf() && {
                    if !spec_verify_signature(
                        plain.subrange(0x500, 0x800),
                        e.signature@,
                        keys.exheader_public_key@,
                    ) {
                        step == SessionStep::Reply(PostNcchResponse::VerificationFailed)
                            && st is Finished
                    } else if !fix_accepts(h, e.public_key@) {
                        step == SessionStep::Reply(PostNcchResponse::VerificationFailed)
                            && st is Finished
                    } else {
                        request_exefs_outcome(
                            id,
                            fixed_header(h, e.public_key@),
                            Some(e),
                            key,
                            cf,
                            step,
                            st,
                        )
                    }
                }
        }
    }
}

/// After the exefs table is verified: request the icon file, or finalize
/// without one; an icon of unexpected size is skipped.
pub open spec fn icon_outcome(
    id: u32,
    h: NcchHeader,
    e: Option<Exheader>,
    x: ExefsHeader,
    direct: bool,
    key: Seq<u8>,
    cf: Seq<u8>,
    step: SessionStep,
    st: PostNcchSessionState,
) -> bool {
    let idx = first_icon_index(x.files@, 0);
    if idx == 10 {
        finalize_outcome(h, e, None, step, st)
    } else {
        let f = x.files@[idx];
        if f.size != 0x36c0 {
            finalize_outcome(h, e, None, step, st)
        } else {
            let icon_off = 0x200 + f.offset;
            let abs = exefs_offset_bytes(h) + icon_off;
            if abs <= usize::MAX {
                &&& step matches SessionStep::Reply(PostNcchResponse::AppendNeeded(a))
                    && a.session_id == id && a.offset == abs && a.len == 0x36c0
                &&& st matches PostNcchSessionState::IconNeeded(h2, e2, hash2, cr) && h2 == h && e2
                    == e && hash2@ == x.hashes@[9 - idx]@ && (direct ==> cr is None) && (!direct
                    ==> (cr matches Some((k, c, o)) && k@ == key && c@ == cf && o == icon_off))
            } else {
                &&& step == SessionStep::Reply(PostNcchResponse::UnexpectedFormat)
                &&& st is Finished
            }
        }
    }
}

/// The exefs round: hash-first decrypt of the hashed region, then the file
/// table decides whether an icon is fetched.
pub open spec fn exefs_transition(
    id: u32,
    h: NcchHeader,
    e: Option<Exheader>,
    key: Seq<u8>,
    cf: Seq<u8>,
    data: Seq<u8>,
    step: SessionStep,
    st: PostNcchSessionState,
) -> bool {
    let region = h.exefs_hash_region_size * unit_of(h);
    if data.len() != exefs_needed_len(h) {
        step == SessionStep::Reply(PostNcchResponse::UnexpectedLength) && st is Finished
    } else {
        let direct = sha256_of(data.take(region)) == h.exefs_hash@;
        let plain = if direct {
            data
        } else {
            xor_keystream(data, key, cf, 0)
        };
        if !direct && sha256_of(plain.take(region)) != h.exefs_hash@ {
            step == SessionStep::Reply(PostNcchResponse::VerificationFailed) && st is Finished
        } else {
            exists|x: ExefsHeader|
                x.parses(plain.take(0x200)) && x.wf() && icon_outcome(
                    id,
                    h,
                    e,
                    x,
                    direct,
                    key,
                    cf,
                    step,
                    st,
                )
        }
    }
}

/// The icon round: optional decryption at the icon's stream offset, the
/// exefs hash check, then the SMDH block is kept if its magic matches.
pub open spec fn icon_transition(
    h: NcchHeader,
    e: Option<Exheader>,
    hash: Seq<u8>,
    crypto: Option<(Vec<u8>, Vec<u8>, u64)>,
    data: Seq<u8>,
    step: SessionStep,
    st: PostNcchSessionState,
) -> bool {
    if data.len() != 0x36c0 {
        step == SessionStep::Reply(PostNcchResponse::UnexpectedLength) && st is Finished
    } else {
        let plain = match crypto {
            Some((k, c, o)) => xor_keystream(data, k@, c@, o as int),
            None => data,
        };
        if sha256_of(plain) != hash {
            step == SessionStep::Reply(PostNcchResponse::VerificationFailed) && st is Finished
        } else {
            exists|sm: Smdh|
                sm.parses(plain) && sm.wf() && {
                    if sm.magic@ != magic_smdh() {
                        finalize_outcome(h, e, None, step, st)
                    } else {
                        finalize_outcome(h, e, Some(sm), step, st)
                    }
                }
        }
    }
}

/// The whole step relation of `PostNcchSession::next`: the touch time is
/// stamped, identity and keys are kept, and the reply follows the protocol
/// for the state the session was in.
pub open spec fn next_rel(
    pre: PostNcchSession,
    data: Seq<u8>,
    now: u64,
    step: SessionStep,
    post: PostNcchSession,
) -> bool {
    &&& post.wf()
    &&& post.id == pre.id
    &&& post.keys == pre.keys
    &&& post.last_touch == now
    &&& match pre.state {
        PostNcchSessionState::HeaderNeeded => header_transition(
            pre.keys,
            pre.id,
            data,
            step,
            post.state,
        ),
        PostNcchSessionState::ExheaderNeeded(h, k, cx, cf) => exheader_transition(
            pre.keys,
            pre.id,
            h,
            k@,
            cx@,
            cf@,
            data,
            step,
            post.state,
        ),
        PostNcchSessionState::ExefsNeeded(h, e, k, cf) => exefs_transition(
            pre.id,
            h,
            e,
            k@,
            cf@,
            data,
            step,
            post.state,
        ),
        PostNcchSessionState::IconNeeded(h, e, hash, cr) => icon_transition(
            h,
            e,
            hash@,
            cr,
            data,
            step,
            post.state,
        ),
        PostNcchSessionState::Finished => step == SessionStep::Reply(
            PostNcchResponse::AlreadyFinished,
        ) && post.state is Undefined,
        PostNcchSessionState::Undefined => step == SessionStep::Reply(
            PostNcchResponse::AlreadyFinished,
        ) && post.state is Undefined,
    }
}

/// Maps the catalog's answer to an insert onto the final reply: the stable
/// id on success, a conflict carrying the same id, or an internal error.
pub fn commit_response(outcome: CatalogOutcome, ncch_id: String) -> (r: PostNcchResponse)
    ensures
        outcome is Inserted ==> (r matches PostNcchResponse::Finished(x) && x.ncch_id@ == ncch_id@),
        outcome is Duplicate ==> (r matches PostNcchResponse::Conflict(x) && x.ncch_id@ == ncch_id@),
        outcome is Failed ==> r == PostNcchResponse::InternalServerError,
{
    match outcome {
        CatalogOutcome::Inserted => PostNcchResponse::Finished(NcchExist { ncch_id }),
        CatalogOutcome::Duplicate => PostNcchResponse::Conflict(NcchExist { ncch_id }),
        CatalogOutcome::Failed => PostNcchResponse::InternalServerError,
    }
}

fn bytes_eq(a: &[u8], b: &[u8]) -> (r: bool)
    ensures
        r == (a@ == b@),
{
    let _n: usize = a.len();
    let _m: usize = b.len();
    if a.len() != b.len() {
        return false;
    }
    let mut i: usize = 0;
    while i < a.len()
        invariant
            i <= a@.len(),
            a@.len() == b@.len(),
            forall|k: int| 0 <= k < i ==> a@[k] == b@[k],
        decreases a@.len() - i,
    {
        if a[i] != b[i] {
            return false;
        }
        i = i + 1;
    }
    proof {
        assert(a@ =~= b@);
    }
    true
}

fn is_magic(m: &Vec<u8>, a: u8, b: u8, c: u8, d: u8) -> (r: bool)
    ensures
        r == (m@ == seq![a, b, c, d]),
{
    let ok = m.len() == 4 && m[0] == a && m[1] == b && m[2] == c && m[3] == d;
    proof {
        if ok {
            assert(m@ =~= seq![a, b, c, d]);
        } else {
            assert(m@ != seq![a, b, c, d]);
        }
    }
    ok
}

/// The region key for a parsed header, under the process keys.
pub fn session_key(h: &NcchHeader, keys: &NcchKeys) -> (r: Vec<u8>)
    requires
        h.wf(),
        keys.wf(),
    ensures
        r@ == spec_ncch_key(*h, *keys),
        r@.len() == 16,
{
    if h.key_config.fixed_key != 0 {
        let z = vec![0u8; 16];
        proof {
            assert(z@ =~= Seq::new(16, |i: int| 0u8));
        }
        z
    } else {
        let y = vstd::slice::slice_subrange(h.signature.as_slice(), 0, 16);
        proof {
            assert(y@ =~= h.signature@.take(16));
        }
        get_ncch_key(y, keys.key_x.as_slice(), keys.scrambler.as_slice())
    }
}

/// The per-region AES counters derived from the header's partition id,
/// version and sizes.
pub fn build_ctrs(h: &NcchHeader) -> (r: (Vec<u8>, Vec<u8>))
    requires
        h.content_unit_size <= 20,
    ensures
        r.0@ == ctr_exheader_of(*h),
        r.1@ == ctr_exefs_of(*h),
        r.0@.len() == 16,
        r.1@.len() == 16,
{
    let mut cx: Vec<u8> = Vec::new();
    let mut cf: Vec<u8> = Vec::new();
    if h.version == 0 || h.version == 2 {
        let mut i: usize = 0;
        while i < 8
            invariant
                i <= 8,
                cx@.len() == i,
                cf@.len() == i,
                forall|k: int| 0 <= k < i ==> cx@[k] == be64_byte(h.partition_id, k),
                forall|k: int| 0 <= k < i ==> cf@[k] == be64_byte(h.partition_id, k),
            decreases 8 - i,
        {
            let shift: u64 = (56 - 8 * i) as u64;
            proof {
                let s = shift;
                let x = h.partition_id;
                assert((x >> s) & 0xff < 256) by (bit_vector);
            }
            let b: u8 = ((h.partition_id >> shift) & 0xff) as u8;
            cx.push(b);
            cf.push(b);
            i = i + 1;
        }
        cx.push(1);
        cf.push(2);
        let mut j: usize = 0;
        while j < 7
            invariant
                j <= 7,
                cx@.len() == 9 + j,
                cf@.len() == 9 + j,
                forall|k: int| 0 <= k < 8 ==> cx@[k] == be64_byte(h.partition_id, k),
                forall|k: int| 0 <= k < 8 ==> cf@[k] == be64_byte(h.partition_id, k),
                cx@[8] == 1u8,
                cf@[8] == 2u8,
                forall|k: int| 9 <= k < 9 + j ==> cx@[k] == 0u8,
                forall|k: int| 9 <= k < 9 + j ==> cf@[k] == 0u8,
            decreases 7 - j,
        {
            cx.push(0);
            cf.push(0);
            j = j + 1;
        }
        proof {
            assert(cx@ =~= ctr_exheader_of(*h));
            assert(cf@ =~= ctr_exefs_of(*h));
        }
    } else if h.version == 1 {
        let mut i: usize = 0;
        while i < 8
            invariant
                i <= 8,
                cx@.len() == i,
                cf@.len() == i,
                forall|k: int| 0 <= k < i ==> cx@[k] == le64_byte(h.partition_id, k),
                forall|k: int| 0 <= k < i ==> cf@[k] == le64_byte(h.partition_id, k),
            decreases 8 - i,
        {
            let shift: u64 = (8 * i) as u64;
            proof {
                let s = shift;
                let x = h.partition_id;
                assert((x >> s) & 0xff < 256) by (bit_vector);
            }
            let b: u8 = ((h.partition_id >> shift) & 0xff) as u8;
            cx.push(b);
            cf.push(b);
            i = i + 1;
        }
        let mut j: usize = 0;
        while j < 4
            invariant
                j <= 4,
                cx@.len() == 8 + j,
                cf@.len() == 8 + j,
                forall|k: int| 0 <= k < 8 ==> cx@[k] == le64_byte(h.partition_id, k),
                forall|k: int| 0 <= k < 8 ==> cf@[k] == le64_byte(h.partition_id, k),
                forall|k: int| 8 <= k < 8 + j ==> cx@[k] == 0u8,
                forall|k: int| 8 <= k < 8 + j ==> cf@[k] == 0u8,
            decreases 4 - j,
        {
            cx.push(0);
            cf.push(0);
            j = j + 1;
        }
        let unit = h.unit_size();
        proof {
            assert((h.exefs_size as u64) * unit <= 0xffff_ffffu64 * 0x2000_0000u64)
                by (nonlinear_arith)
                requires
                    h.exefs_size <= 0xffff_ffffu64,
                    unit <= 0x2000_0000u64,
            ;
        }
        let prod: u64 = (h.exefs_size as u64) * unit;
        let low: u32 = #[verifier::truncate] (prod as u32);
        let mut w: usize = 0;
        while w < 4
            invariant
                w <= 4,
                cx@.len() == 12 + w,
                cf@.len() == 12 + w,
                low == exefs_len_word(*h),
                forall|k: int| 0 <= k < 8 ==> cx@[k] == le64_byte(h.partition_id, k),
                forall|k: int| 0 <= k < 8 ==> cf@[k] == le64_byte(h.partition_id, k),
                forall|k: int| 8 <= k < 12 ==> cx@[k] == 0u8,
                forall|k: int| 8 <= k < 12 ==> cf@[k] == 0u8,
                forall|k: int| 12 <= k < 12 + w ==> cx@[k] == be32_byte(0x200u32, k - 12),
                forall|k: int| 12 <= k < 12 + w ==> cf@[k] == be32_byte(low, k - 12),
            decreases 4 - w,
        {
            let shift: u32 = (8 * (3 - w)) as u32;
            proof {
                let s = shift;
                let l = low;
                assert((0x200u32 >> s) & 0xff < 256 && (l >> s) & 0xff < 256) by (bit_vector);
            }
            cx.push(((0x200u32 >> shift) & 0xff) as u8);
            cf.push(((low >> shift) & 0xff) as u8);
            w = w + 1;
        }
        proof {
            assert(cx@ =~= ctr_exheader_of(*h));
            assert(cf@ =~= ctr_exefs_of(*h));
        }
    } else {
        let mut j: usize = 0;
        while j < 16
            invariant
                j <= 16,
                cx@.len() == j,
                cf@.len() == j,
                forall|k: int| 0 <= k < j ==> cx@[k] == 0u8,
                forall|k: int| 0 <= k < j ==> cf@[k] == 0u8,
            decreases 16 - j,
        {
            cx.push(0);
            cf.push(0);
            j = j + 1;
        }
        proof {
            assert(cx@ =~= ctr_exheader_of(*h));
            assert(cf@ =~= ctr_exefs_of(*h));
        }
    }
    (cx, cf)
}

/// Hash-first region check: a region whose prefix already matches the
/// expected hash is kept as plaintext and never decrypted; otherwise it is
/// decrypted from stream offset zero and hashed again.
pub fn hash_or_decrypt(data: &[u8], prefix: usize, expected: &[u8], key: &[u8], ctr: &[u8]) -> (r: (
    Vec<u8>,
    bool,
    bool,
))
    requires
        prefix <= data@.len(),
        key@.len() == 16,
        ctr@.len() == 16,
        data@.len() < 0x1_0000_0000,
    ensures
        ({
            let direct = sha256_of(data@.take(prefix as int)) == expected@;
            let dec = xor_keystream(data@, key@, ctr@, 0);
            &&& r.1 == !direct
            &&& direct ==> r.0@ == data@
            &&& !direct ==> r.0@ == dec
            &&& r.2 == (direct || sha256_of(dec.take(prefix as int)) == expected@)
            &&& r.0@.len() == data@.len()
        }),
{
    let _n: usize = data.len();
    let piece = vstd::slice::slice_subrange(data, 0, prefix);
    proof {
        assert(piece@ =~= data@.take(prefix as int));
    }
    let h1 = sha256(piece);
    if bytes_eq(h1.as_slice(), expected) {
        (vstd::slice::slice_to_vec(data), false, true)
    } else {
        let mut v = vstd::slice::slice_to_vec(data);
        aes_ctr_decrypt(&mut v, key, ctr, 0);
        proof {
            assert(v@ == xor_keystream(data@, key@, ctr@, 0));
        }
        let piece2 = vstd::slice::slice_subrange(v.as_slice(), 0, prefix);
        proof {
            assert(piece2@ =~= v@.take(prefix as int));
        }
        let h2 = sha256(piece2);
        let ok = bytes_eq(h2.as_slice(), expected);
        (v, true, ok)
    }
}

impl PostNcchSession {
    /// A fresh session awaiting its first header block.
    pub fn new(id: u32, keys: NcchKeys, now: u64) -> (s: PostNcchSession)
        requires
            keys.wf(),
        ensures
            s.id == id,
            s.keys == keys,
            s.last_touch == now,
            s.state is HeaderNeeded,
            s.wf(),
    {
        PostNcchSession { id, keys, last_touch: now, state: PostNcchSessionState::HeaderNeeded }
    }

    /// Whether this session accepts no further input.
    pub fn finished(&self) -> (r: bool)
        ensures
            r == (self.state is Finished || self.state is Undefined),
    {
        match self.state {
            PostNcchSessionState::Finished => true,
            PostNcchSessionState::Undefined => true,
            _ => false,
        }
    }

    /// When this session last made progress.
    pub fn last_touch(&self) -> (r: u64)
        ensures
            r == self.last_touch,
    {
        self.last_touch
    }

    /// Ends the upload: builds the catalog record and hands it to the
    /// caller for the insert.
    fn finalize(&mut self, header: NcchHeader, exheader: Option<Exheader>, icon: Option<Smdh>) -> (
        r: SessionStep)
        requires
            header.wf(),
            exheader matches Some(e) ==> e.wf(),
        ensures
            finalize_outcome(header, exheader, icon, r, final(self).state),
            final(self).id == old(self).id,
            final(self).keys == old(self).keys,
            final(self).last_touch == old(self).last_touch,
            final(self).wf() == old(self).keys.wf(),
    {
        let record = NcchRecord::new(header, exheader, icon);
        self.state = PostNcchSessionState::Finished;
        SessionStep::Commit(record)
    }

    /// Asks for the exefs region, or finalizes at once when the container
    /// has none.
    fn request_exefs(
        &mut self,
        header: NcchHeader,
        exheader: Option<Exheader>,
        key: Vec<u8>,
        cf: Vec<u8>,
    ) -> (r: SessionStep)
        requires
            header.wf(),
            header.content_unit_size <= 20,
            exheader matches Some(e) ==> e.wf(),
            key@.len() == 16,
            cf@.len() == 16,
        ensures
            request_exefs_outcome(old(self).id, header, exheader, key@, cf@, r, final(self).state),
            final(self).id == old(self).id,
            final(self).keys == old(self).keys,
            final(self).last_touch == old(self).last_touch,
            final(self).wf() == old(self).keys.wf(),
    {
        if header.exefs_offset != 0 {
            let unit = header.unit_size();
            proof {
                assert((header.exefs_offset as u64) * unit <= 0xffff_ffffu64 * 0x2000_0000u64
                    && (header.exefs_hash_region_size as u64) * unit <= 0xffff_ffffu64
                    * 0x2000_0000u64) by (nonlinear_arith)
                    requires
                        header.exefs_offset <= 0xffff_ffffu64,
                        header.exefs_hash_region_size <= 0xffff_ffffu64,
                        unit <= 0x2000_0000u64,
                ;
            }
            let off64: u64 = (header.exefs_offset as u64) * unit;
            let region64: u64 = (header.exefs_hash_region_size as u64) * unit;
            let len64: u64 = if region64 > 0x200 {
                region64
            } else {
                0x200
            };
            if off64 > (usize::MAX as u64) || len64 > (usize::MAX as u64) || len64
                >= 0x1_0000_0000 {
                self.state = PostNcchSessionState::Finished;
                SessionStep::Reply(PostNcchResponse::UnexpectedFormat)
            } else {
                let id = self.id;
                let offset: usize = off64 as usize;
                let len: usize = len64 as usize;
                self.state = PostNcchSessionState::ExefsNeeded(header, exheader, key, cf);
                SessionStep::Reply(
                    PostNcchResponse::AppendNeeded(AppendRequest { session_id: id, offset, len }),
                )
            }
        } else {
            self.finalize(header, exheader, None)
        }
    }

    /// Asks for the icon file named in the verified table, skipping an
    /// absent or oddly sized entry.
    fn request_icon(
        &mut self,
        header: NcchHeader,
        exheader: Option<Exheader>,
        exefs: ExefsHeader,
        exefs_crypto: Option<(Vec<u8>, Vec<u8>)>,
        Ghost(gkey): Ghost<Seq<u8>>,
        Ghost(gcf): Ghost<Seq<u8>>,
    ) -> (r: SessionStep)
        requires
            header.wf(),
            header.content_unit_size <= 20,
            exheader matches Some(e) ==> e.wf(),
            exefs.wf(),
            exefs_crypto matches Some((k, c)) ==> k@ == gkey && c@ == gcf && k@.len() == 16
                && c@.len() == 16,
        ensures
            icon_outcome(
                old(self).id,
                header,
                exheader,
                exefs,
                exefs_crypto is None,
                gkey,
                gcf,
                r,
                final(self).state,
            ),
            final(self).id == old(self).id,
            final(self).keys == old(self).keys,
            final(self).last_touch == old(self).last_touch,
            final(self).wf() == old(self).keys.wf(),
    {
        proof {
            lemma_icon_index_lb(exefs.files@, 0);
        }
        let mut idx: usize = 0;
        let mut found = false;
        while idx < 10 && !found
            invariant
                idx <= 10,
                exefs.wf(),
                found ==> idx < 10 && first_icon_index(exefs.files@, 0) == idx,
                !found ==> first_icon_index(exefs.files@, 0) >= idx,
            decreases 10 - idx + (if found {
                0int
            } else {
                1int
            }),
        {
            if is_icon_name(&exefs.files[idx].name) {
                proof {
                    lemma_icon_index_found(exefs.files@, idx as int);
                }
                found = true;
            } else {
                proof {
                    lemma_icon_index_skip(exefs.files@, idx as int);
                }
                idx = idx + 1;
            }
        }
        if !found {
            proof {
                lemma_icon_index_ub(exefs.files@, 0);
                assert(first_icon_index(exefs.files@, 0) == 10);
            }
            return self.finalize(header, exheader, None);
        }
        let fsize = exefs.files[idx].size;
        let foffset = exefs.files[idx].offset;
        if fsize != 0x36c0 {
            return self.finalize(header, exheader, None);
        }
        let unit = header.unit_size();
        proof {
            assert((header.exefs_offset as u64) * unit <= 0xffff_ffffu64 * 0x2000_0000u64)
                by (nonlinear_arith)
                requires
                    header.exefs_offset <= 0xffff_ffffu64,
                    unit <= 0x2000_0000u64,
            ;
        }
        let off64: u64 = (header.exefs_offset as u64) * unit;
        let icon_off: u64 = 0x200u64 + (foffset as u64);
        let abs: u64 = off64 + icon_off;
        if abs > (usize::MAX as u64) {
            self.state = PostNcchSessionState::Finished;
            return SessionStep::Reply(PostNcchResponse::UnexpectedFormat);
        }
        let hash = vstd::slice::slice_to_vec(exefs.hashes[9 - idx].as_slice());
        let id = self.id;
        let crypto: Option<(Vec<u8>, Vec<u8>, u64)> = match exefs_crypto {
            Some((k, c)) => Some((k, c, icon_off)),
            None => None,
        };
        self.state = PostNcchSessionState::IconNeeded(header, exheader, hash, crypto);
        SessionStep::Reply(
            PostNcchResponse::AppendNeeded(
                AppendRequest { session_id: id, offset: abs as usize, len: 0x36c0 },
            ),
        )
    }

    /// The first round: parse and sanity-check the header, derive the
    /// region key and counters, then request the extended header or verify
    /// the data-archive signature.
    fn receive_header(&mut self, data: &[u8]) -> (r: SessionStep)
        requires
            old(self).wf(),
        ensures
            header_transition(old(self).keys, old(self).id, data@, r, final(self).state),
            final(self).id == old(self).id,
            final(self).keys == old(self).keys,
            final(self).last_touch == old(self).last_touch,
            final(self).wf(),
    {
        if data.len() != 0x200 {
            self.state = PostNcchSessionState::Finished;
            return SessionStep::Reply(PostNcchResponse::UnexpectedLength);
        }
        let header = NcchHeader::read_bytes(data);
        if !is_magic(&header.magic, 0x4e, 0x43, 0x43, 0x48) {
            self.state = PostNcchSessionState::Finished;
            return SessionStep::Reply(PostNcchResponse::UnexpectedFormat);
        }
        if header.content_unit_size > 20 {
            self.state = PostNcchSessionState::Finished;
            return SessionStep::Reply(PostNcchResponse::UnexpectedFormat);
        }
        let key = session_key(&header, &self.keys);
        let (cx, cf) = build_ctrs(&header);
        if header.exheader_size != 0 {
            if header.exheader_size != 0x400 {
                self.state = PostNcchSessionState::Finished;
                return SessionStep::Reply(PostNcchResponse::UnexpectedFormat);
            }
            let id = self.id;
            self.state = PostNcchSessionState::ExheaderNeeded(header, key, cx, cf);
            SessionStep::Reply(
                PostNcchResponse::AppendNeeded(
                    AppendRequest { session_id: id, offset: 0x200, len: 0x800 },
                ),
            )
        } else {
            let mut header = header;
            let accepted = Self::verify_and_fix_header(
                &mut header,
                self.keys.cfa_public_key.as_slice(),
            );
            if !accepted {
                self.state = PostNcchSessionState::Finished;
                return SessionStep::Reply(PostNcchResponse::VerificationFailed);
            }
            self.request_exefs(header, None, key, cf)
        }
    }

    /// The extended-header round: hash-first decrypt, the exheader
    /// signature under the fixed key, then the header signature under the
    /// embedded key.
    fn receive_exheader(
        &mut self,
        data: &[u8],
        header: NcchHeader,
        key: Vec<u8>,
        ctr_exheader: Vec<u8>,
        ctr_exefs: Vec<u8>,
    ) -> (r: SessionStep)
        requires
            old(self).wf(),
            header.wf(),
            header.content_unit_size <= 20,
            key@.len() == 16,
            ctr_exheader@.len() == 16,
            ctr_exefs@.len() == 16,
        ensures
            exheader_transition(
                old(self).keys,
                old(self).id,
                header,
                key@,
                ctr_exheader@,
                ctr_exefs@,
                data@,
                r,
                final(self).state,
            ),
            final(self).id == old(self).id,
            final(self).keys == old(self).keys,
            final(self).last_touch == old(self).last_touch,
            final(self).wf(),
    {
        if data.len() != 0x800 {
            self.state = PostNcchSessionState::Finished;
            return SessionStep::Reply(PostNcchResponse::UnexpectedLength);
        }
        let (plain, _decrypted, ok) = hash_or_decrypt(
            data,
            0x400,
            header.exheader_hash.as_slice(),
            key.as_slice(),
            ctr_exheader.as_slice(),
        );
        if !ok {
            self.state = PostNcchSessionState::Finished;
            return SessionStep::Reply(PostNcchResponse::VerificationFailed);
        }
        let exheader = Exheader::read_bytes(plain.as_slice());
        let signed = vstd::slice::slice_subrange(plain.as_slice(), 0x500, 0x800);
        if !verify_signature(
            signed,
            exheader.signature.as_slice(),
            self.keys.exheader_public_key.as_slice(),
        ) {
            self.state = PostNcchSessionState::Finished;
            return SessionStep::Reply(PostNcchResponse::VerificationFailed);
        }
        let mut header = header;
        let accepted = Self::verify_and_fix_header(&mut header, exheader.public_key.as_slice());
        if !accepted {
            self.state = PostNcchSessionState::Finished;
            return SessionStep::Reply(PostNcchResponse::VerificationFailed);
        }
        self.request_exefs(header, Some(exheader), key, ctr_exefs)
    }

    /// The exefs round: hash-first decrypt of the hashed region, then the
    /// file table decides whether an icon is fetched.
    fn receive_exefs(
        &mut self,
        data: &[u8],
        header: NcchHeader,
        exheader: Option<Exheader>,
        key: Vec<u8>,
        ctr_exefs: Vec<u8>,
    ) -> (r: SessionStep)
        requires
            old(self).wf(),
            header.wf(),
            header.content_unit_size <= 20,
            exheader matches Some(e) ==> e.wf(),
            key@.len() == 16,
            ctr_exefs@.len() == 16,
            exefs_needed_len(header) < 0x1_0000_0000,
        ensures
            exefs_transition(
                old(self).id,
                header,
                exheader,
                key@,
                ctr_exefs@,
                data@,
                r,
                final(self).state,
            ),
            final(self).id == old(self).id,
            final(self).keys == old(self).keys,
            final(self).last_touch == old(self).last_touch,
            final(self).wf(),
    {
        let unit = header.unit_size();
        proof {
            assert((header.exefs_hash_region_size as u64) * unit <= 0xffff_ffffu64
                * 0x2000_0000u64) by (nonlinear_arith)
                requires
                    header.exefs_hash_region_size <= 0xffff_ffffu64,
                    unit <= 0x2000_0000u64,
            ;
        }
        let region64: u64 = (header.exefs_hash_region_size as u64) * unit;
        let needed64: u64 = if region64 > 0x200 {
            region64
        } else {
            0x200
        };
        if (data.len() as u64) != needed64 {
            self.state = PostNcchSessionState::Finished;
            return SessionStep::Reply(PostNcchResponse::UnexpectedLength);
        }
        let prefix: usize = region64 as usize;
        let (plain, decrypted, ok) = hash_or_decrypt(
            data,
            prefix,
            header.exefs_hash.as_slice(),
            key.as_slice(),
            ctr_exefs.as_slice(),
        );
        if !ok {
            self.state = PostNcchSessionState::Finished;
            return SessionStep::Reply(PostNcchResponse::VerificationFailed);
        }
        let table = vstd::slice::slice_subrange(plain.as_slice(), 0, 0x200);
        proof {
            assert(table@ =~= plain@.take(0x200));
        }
        let exefs = ExefsHeader::read_bytes(table);
        let crypto: Option<(Vec<u8>, Vec<u8>)> = if decrypted {
            Some((key, ctr_exefs))
        } else {
            None
        };
        let ghost gkey = key@;
        let ghost gcf = ctr_exefs@;
        self.request_icon(header, exheader, exefs, crypto, Ghost(gkey), Ghost(gcf))
    }

    /// The icon round: decrypt at the icon's stream offset when the exefs
    /// was encrypted, check the table hash, and keep the metadata block if
    /// its magic matches.
    fn receive_icon(
        &mut self,
        data: &[u8],
        header: NcchHeader,
        exheader: Option<Exheader>,
        hash: Vec<u8>,
        icon_crypto: Option<(Vec<u8>, Vec<u8>, u64)>,
    ) -> (r: SessionStep)
        requires
            old(self).wf(),
            header.wf(),
            exheader matches Some(e) ==> e.wf(),
            hash@.len() == 32,
            icon_crypto matches Some((k, c, o)) ==> k@.len() == 16 && c@.len() == 16 && o
                < 0x2_0000_0000,
        ensures
            icon_transition(header, exheader, hash@, icon_crypto, data@, r, final(self).state),
            final(self).id == old(self).id,
            final(self).keys == old(self).keys,
            final(self).last_touch == old(self).last_touch,
            final(self).wf(),
    {
        if data.len() != 0x36c0 {
            self.state = PostNcchSessionState::Finished;
            return SessionStep::Reply(PostNcchResponse::UnexpectedLength);
        }
        let plain: Vec<u8> = match &icon_crypto {
            Some((k, c, o)) => {
                let mut v = vstd::slice::slice_to_vec(data);
                aes_ctr_decrypt(&mut v, k.as_slice(), c.as_slice(), *o);
                v
            },
            None => vstd::slice::slice_to_vec(data),
        };
        let hs = sha256(plain.as_slice());
        if !bytes_eq(hs.as_slice(), hash.as_slice()) {
            self.state = PostNcchSessionState::Finished;
            return SessionStep::Reply(PostNcchResponse::VerificationFailed);
        }
        let smdh = Smdh::read_bytes(plain.as_slice());
        if !is_magic(&smdh.magic, 0x53, 0x4d, 0x44, 0x48) {
            self.finalize(header, exheader, None)
        } else {
            self.finalize(header, exheader, Some(smdh))
        }
    }

    /// Feeds one uploaded chunk to the session, stamping the touch time.
    /// The reply, or the record to commit, follows the protocol for the
    /// state the session was in; a terminated session only reports so.
    pub fn next(&mut self, data: &[u8], now: u64) -> (step: SessionStep)
        requires
            old(self).wf(),
        ensures
            next_rel(*old(self), data@, now, step, *final(self)),
    {
        self.last_touch = now;
        let mut st = PostNcchSessionState::Undefined;
        core::mem::swap(&mut st, &mut self.state);
        match st {
            PostNcchSessionState::HeaderNeeded => self.receive_header(data),
            PostNcchSessionState::ExheaderNeeded(h, k, cx, cf) => self.receive_exheader(
                data,
                h,
                k,
                cx,
                cf,
            ),
            PostNcchSessionState::ExefsNeeded(h, e, k, cf) => self.receive_exefs(data, h, e, k, cf),
            PostNcchSessionState::IconNeeded(h, e, hash, cr) => self.receive_icon(
                data,
                h,
                e,
                hash,
                cr,
            ),
            PostNcchSessionState::Finished => SessionStep::Reply(PostNcchResponse::AlreadyFinished),
            PostNcchSessionState::Undefined => SessionStep::Reply(
                PostNcchResponse::AlreadyFinished,
            ),
        }
    }
}

fn is_icon_name(m: &Vec<u8>) -> (r: bool)
    ensures
        r == (m@ == icon_name()),
{
    let ok = m.len() == 8 && m[0] == 0x69 && m[1] == 0x63 && m[2] == 0x6f && m[3] == 0x6e && m[4]
        == 0 && m[5] == 0 && m[6] == 0 && m[7] == 0;
    proof {
        if ok {
            assert(m@ =~= icon_name());
        } else {
            assert(m@ != icon_name());
        }
    }
    ok
}

proof fn lemma_icon_index_lb(files: Seq<crate::data_format::ExefsFile>, j: int)
    requires
        0 <= j <= files.len(),
    ensures
        first_icon_index(files, j) >= j,
    decreases files.len() - j,
{
    if j < files.len() && files[j].name@ != icon_name() {
        lemma_icon_index_lb(files, j + 1);
    }
}

proof fn lemma_icon_index_ub(files: Seq<crate::data_format::ExefsFile>, j: int)
    requires
        0 <= j <= files.len(),
    ensures
        first_icon_index(files, j) <= files.len(),
    decreases files.len() - j,
{
    if j < files.len() && files[j].name@ != icon_name() {
        lemma_icon_index_ub(files, j + 1);
    }
}

proof fn lemma_icon_index_found(files: Seq<crate::data_format::ExefsFile>, i: int)
    requires
        0 <= i < files.len(),
        first_icon_index(files, 0) >= i,
        files[i].name@ == icon_name(),
    ensures
        first_icon_index(files, 0) == i,
{
    lemma_icon_index_found_step(files, 0, i);
}

proof fn lemma_icon_index_found_step(files: Seq<crate::data_format::ExefsFile>, j: int, i: int)
    requires
        0 <= j <= i < files.len(),
        first_icon_index(files, j) >= i,
        files[i].name@ == icon_name(),
    ensures
        first_icon_index(files, j) == i,
    decreases i - j,
{
    if j < i {
        lemma_icon_index_found_step(files, j + 1, i);
    }
}

proof fn lemma_icon_index_skip(files: Seq<crate::data_format::ExefsFile>, i: int)
    requires
        0 <= i < files.len(),
        first_icon_index(files, 0) >= i,
        files[i].name@ != icon_name(),
    ensures
        first_icon_index(files, 0) >= i + 1,
{
    lemma_icon_index_skip_step(files, 0, i);
}

proof fn lemma_icon_index_skip_step(files: Seq<crate::data_format::ExefsFile>, j: int, i: int)
    requires
        0 <= j <= i < files.len(),
        first_icon_index(files, j) >= i,
        files[i].name@ != icon_name(),
    ensures
        first_icon_index(files, j) >= i + 1,
    decreases i - j,
{
    if j < i {
        lemma_icon_index_skip_step(files, j + 1, i);
    } else {
        lemma_icon_index_lb(files, i + 1);
    }
}

/// The sweep position at which a header with the given in-range flags is
/// its own candidate.
pub open spec fn sweep_position(h: NcchHeader) -> int {
    let si = if h.secondary_key_slot == 0 {
        0int
    } else if h.secondary_key_slot == 1 {
        1
    } else if h.secondary_key_slot == 10 {
        2
    } else {
        3
    };
    2 * si + h.key_config.seed_crypto
}

/// A verifying candidate bounds the first match from above.
proof fn lemma_first_match_le(h: NcchHeader, key: Seq<u8>, i: int)
    requires
        0 <= i < 8,
        sig_ok(candidate(h, i), key),
    ensures
        first_match(h, key, 0) <= i,
{
    lemma_first_match_le_step(h, key, 0, i);
}

proof fn lemma_first_match_le_step(h: NcchHeader, key: Seq<u8>, j: int, i: int)
    requires
        0 <= j <= i < 8,
        sig_ok(candidate(h, i), key),
    ensures
        first_match(h, key, j) <= i,
    decreases i - j,
{
    if j < i && !sig_ok(candidate(h, j), key) {
        lemma_first_match_le_step(h, key, j + 1, i);
    }
}

/// Two headers differing only in the swept flags have the same candidates.
proof fn lemma_first_match_agree(h: NcchHeader, h2: NcchHeader, key: Seq<u8>, i: int)
    requires
        0 <= i <= 8,
        exists|s: u8, d: u8| h2 == with_flags(h, s, d),
    ensures
        first_match(h2, key, i) == first_match(h, key, i),
    decreases 8 - i,
{
    if i < 8 {
        let (s, d) = choose|s: u8, d: u8| h2 == with_flags(h, s, d);
        assert(candidate(h2, i) == candidate(h, i));
        lemma_first_match_agree(h, h2, key, i + 1);
    }
}

/// Flag-repair equivalence: a header whose crypto flags were rewritten to
/// any swept combination (secondary key slot 0, 1, 10 or 11, seed flag 0 or
/// 1, `no_crypto` and `fixed_key` cleared) is accepted by the repair sweep
/// exactly when the correctly-flagged original header is, provided the
/// original's own flags lie in the sweep's range.
pub proof fn lemma_flag_repair_equivalence(h: NcchHeader, h2: NcchHeader, key: Seq<u8>)
    requires
        h.key_config.no_crypto == 0,
        h.key_config.fixed_key == 0,
        h.secondary_key_slot == 0 || h.secondary_key_slot == 1 || h.secondary_key_slot == 10
            || h.secondary_key_slot == 11,
        h.key_config.seed_crypto == 0 || h.key_config.seed_crypto == 1,
        h2.secondary_key_slot == 0 || h2.secondary_key_slot == 1 || h2.secondary_key_slot == 10
            || h2.secondary_key_slot == 11,
        h2.key_config.seed_crypto == 0 || h2.key_config.seed_crypto == 1,
        h2 == with_flags(h, h2.secondary_key_slot, h2.key_config.seed_crypto),
    ensures
        fix_accepts(h2, key) == fix_accepts(h, key),
{
    let i0 = sweep_position(h);
    assert(candidate(h, i0) == h);
    let i2 = sweep_position(h2);
    assert(with_flags(h2, h2.secondary_key_slot, h2.key_config.seed_crypto) == h2);
    assert(candidate(h2, i2) == candidate(h, i2)) by {
        assert(h2 == with_flags(h, h2.secondary_key_slot, h2.key_config.seed_crypto));
    }
    assert(candidate(h2, i2) == h2);
    assert(h2 == with_flags(h, h2.secondary_key_slot, h2.key_config.seed_crypto));
    lemma_first_match_agree(h, h2, key, 0);
    if sig_ok(h, key) {
        lemma_first_match_le(h, key, i0);
    }
    if sig_ok(h2, key) {
        lemma_first_match_le(h2, key, i2);
    }
}

/// A position below the first match has a failing candidate; a verifying
/// candidate at a position not below the current bound pins the first match.
proof fn lemma_first_match_found(h: NcchHeader, key: Seq<u8>, i: int)
    requires
        0 <= i < 8,
        first_match(h, key, 0) >= i,
        sig_ok(candidate(h, i), key),
    ensures
        first_match(h, key, 0) == i,
{
    lemma_first_match_step(h, key, 0, i);
}

proof fn lemma_first_match_step(h: NcchHeader, key: Seq<u8>, j: int, i: int)
    requires
        0 <= j <= i < 8,
        first_match(h, key, j) >= i,
        sig_ok(candidate(h, i), key),
    ensures
        first_match(h, key, j) == i,
    decreases i - j,
{
    if j < i {
        lemma_first_match_step(h, key, j + 1, i);
    }
}

/// A failing candidate at the current bound pushes the first match past it.
proof fn lemma_first_match_skip(h: NcchHeader, key: Seq<u8>, i: int)
    requires
        0 <= i < 8,
        first_match(h, key, 0) >= i,
        !sig_ok(candidate(h, i), key),
    ensures
        first_match(h, key, 0) >= i + 1,
{
    lemma_first_match_skip_step(h, key, 0, i);
}

proof fn lemma_first_match_skip_step(h: NcchHeader, key: Seq<u8>, j: int, i: int)
    requires
        0 <= j <= i < 8,
        first_match(h, key, j) >= i,
        !sig_ok(candidate(h, i), key),
    ensures
        first_match(h, key, j) >= i + 1,
    decreases i - j,
{
    if j < i {
        lemma_first_match_skip_step(h, key, j + 1, i);
    } else {
        lemma_first_match_lb(h, key, i + 1);
    }
}

/// The first match from position `j` never lies below `j`.
proof fn lemma_first_match_lb(h: NcchHeader, key: Seq<u8>, j: int)
    requires
        0 <= j <= 8,
    ensures
        first_match(h, key, j) >= j,
    decreases 8 - j,
{
    if j < 8 && !sig_ok(candidate(h, j), key) {
        lemma_first_match_lb(h, key, j + 1);
    }
}

} // verus!
