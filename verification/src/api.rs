//! The request and response types exchanged with clients, and the query
//! parameter shapes of the catalog endpoints.
use vstd::prelude::*;

verus! {

/// The flattened descriptive record of one container, as clients see it.
#[derive(Debug, Clone)]
pub struct NcchInfo {
    pub id: String,
    pub ncch_signature: Vec<u8>,
    pub content_size: u32,
    pub partition_id: String,
    pub maker_code: String,
    pub ncch_verson: u16,
    pub program_id: String,
    pub product_code: String,
    pub secondary_key_slot: u8,
    pub platform: u8,
    pub content_is_data: bool,
    pub content_is_executable: bool,
    pub content_category: u8,
    pub content_unit_size: u8,
    pub fixed_key: bool,
    pub no_romfs: bool,
    pub no_crypto: bool,
    pub seed_crypto: bool,
    pub exheader_name: Option<String>,
    pub sd_app: Option<bool>,
    pub remaster_version: Option<u16>,
    pub dependencies: Option<Vec<String>>,
    pub save_data_size: Option<u64>,
    pub jump_id: Option<String>,
    pub exheader_program_id: Option<String>,
    pub core_version: Option<u32>,
    pub enable_l2_cache: Option<bool>,
    pub high_cpu_speed: Option<bool>,
    pub system_mode: Option<u8>,
    pub n3ds_system_mode: Option<u8>,
    pub ideal_processor: Option<u8>,
    pub affinity_mask: Option<u8>,
    pub thread_priority: Option<u8>,
    pub resource_limit_desc: Option<Vec<u16>>,
    pub extdata_id: Option<String>,
    pub system_savedata_id0: Option<String>,
    pub system_savedata_id1: Option<String>,
    pub storage_access_id: Option<String>,
    pub filesystem_flag: Option<u64>,
    pub services: Option<Vec<String>>,
    pub resource_limit_category: Option<u8>,
    pub kernel_desc: Option<Vec<u32>>,
    pub arm9_flag: Option<u32>,
    pub arm9_flag_version: Option<u8>,
    pub short_title: Option<Vec<String>>,
    pub long_title: Option<Vec<String>>,
    pub publisher: Option<Vec<String>>,
    pub ratings: Option<Vec<u8>>,
    pub region_lockout: Option<u32>,
    pub match_maker_id: Option<String>,
    pub match_maker_bit_id: Option<String>,
    pub smdh_flags: Option<u32>,
    pub eula_version: Option<u16>,
    pub cec_id: Option<String>,
}

#[derive(Debug, Clone)]
pub enum NcchInfoResponse {
    Success(NcchInfo),
    NotFound,
    InternalServerError,
}

/// The exact byte range the server asks the client to upload next.
#[derive(Debug, Clone)]
pub struct AppendRequest {
    pub session_id: u32,
    pub offset: usize,
    pub len: usize,
}

#[derive(Debug, Clone)]
pub struct NcchExist {
    pub ncch_id: String,
}

/// The reply to a submit or append request: either more bytes are needed,
/// the upload finished, or a terminal error.
#[derive(Debug, Clone)]
pub enum PostNcchResponse {
    Finished(NcchExist),
    AlreadyFinished,
    AppendNeeded(AppendRequest),
    UnexpectedLength,
    UnexpectedFormat,
    VerificationFailed,
    Busy,
    Conflict(NcchExist),
    InternalServerError,
    NotFound,
}

impl NcchInfoResponse {
    /// The HTTP status this reply is served with.
    pub fn http_status(&self) -> (r: u16)
        ensures
            r == match *self {
                NcchInfoResponse::Success(_) => 200int,
                NcchInfoResponse::NotFound => 404int,
                NcchInfoResponse::InternalServerError => 500int,
            },
    {
        match self {
            NcchInfoResponse::Success(_) => 200,
            NcchInfoResponse::NotFound => 404,
            NcchInfoResponse::InternalServerError => 500,
        }
    }
}

impl PostNcchResponse {
    /// The HTTP status this reply is served with: progress and completion
    /// are OK, client faults are bad requests, saturation is unavailability
    /// and a duplicate is a conflict.
    pub fn http_status(&self) -> (r: u16)
        ensures
            r == match *self {
                PostNcchResponse::Finished(_) => 200int,
                PostNcchResponse::AppendNeeded(_) => 200int,
                PostNcchResponse::AlreadyFinished => 400int,
                PostNcchResponse::UnexpectedLength => 400int,
                PostNcchResponse::UnexpectedFormat => 400int,
                PostNcchResponse::VerificationFailed => 400int,
                PostNcchResponse::Busy => 503int,
                PostNcchResponse::Conflict(_) => 409int,
                PostNcchResponse::InternalServerError => 500int,
                PostNcchResponse::NotFound => 404int,
            },
    {
        match self {
            PostNcchResponse::Finished(_) => 200,
            PostNcchResponse::AppendNeeded(_) => 200,
            PostNcchResponse::AlreadyFinished => 400,
            PostNcchResponse::UnexpectedLength => 400,
            PostNcchResponse::UnexpectedFormat => 400,
            PostNcchResponse::VerificationFailed => 400,
            PostNcchResponse::Busy => 503,
            PostNcchResponse::Conflict(_) => 409,
            PostNcchResponse::InternalServerError => 500,
            PostNcchResponse::NotFound => 404,
        }
    }
}

impl NcchQueryResponse {
    /// The HTTP status this reply is served with.
    pub fn http_status(&self) -> (r: u16)
        ensures
            r == match *self {
                NcchQueryResponse::Success(_) => 200int,
                NcchQueryResponse::InternalServerError => 500int,
            },
    {
        match self {
            NcchQueryResponse::Success(_) => 200,
            NcchQueryResponse::InternalServerError => 500,
        }
    }
}

impl NcchQueryCountResponse {
    /// The HTTP status this reply is served with.
    pub fn http_status(&self) -> (r: u16)
        ensures
            r == match *self {
                NcchQueryCountResponse::Success(_) => 200int,
                NcchQueryCountResponse::InternalServerError => 500int,
            },
    {
        match self {
            NcchQueryCountResponse::Success(_) => 200,
            NcchQueryCountResponse::InternalServerError => 500,
        }
    }
}

#[derive(Debug, Clone, Copy, PartialEq, Eq, Structural)]
pub enum Comparator {
    Eq,
    Ne,
    Lt,
    Le,
    Gt,
    Ge,
}

/// Relies on the Clone impl of std's PhantomData, a unit value.
pub assume_specification<T>[ <core::marker::PhantomData<T> as Clone>::clone ](
    p: &core::marker::PhantomData<T>,
) -> (r: core::marker::PhantomData<T>) where T: core::marker::PointeeSized
    ensures
        r == *p,
;

/// A typed value carried through the query string as its text form.
#[derive(Debug, Clone, PartialEq, Default)]
pub struct StringWrapper<T>(String, core::marker::PhantomData<T>);

impl<T: std::string::ToString + core::str::FromStr> StringWrapper<T> {
    /// Relies on ToString::to_string for the text form of the value.
    #[verifier::external_body]
    pub fn new(value: T) -> StringWrapper<T> {
        StringWrapper(value.to_string(), core::marker::PhantomData)
    }

    /// Relies on str::parse to read the value back; a form that does not
    /// parse is `None`.
    #[verifier::external_body]
    pub fn value(&self) -> Option<T> {
        str::parse::<T>(&self.0).ok()
    }
}

/// The filter half of a catalog query.
#[derive(Debug, Clone, PartialEq, Default)]
pub struct NcchFilterParam {
    pub keyword: Option<String>,
    pub content_size_cmp: Option<Comparator>,
    pub content_size_rhs: Option<StringWrapper<u32>>,
    pub partition_id: Option<String>,
    pub partition_id_mask: Option<String>,
    pub maker_code: Option<String>,
    pub ncch_version_cmp: Option<Comparator>,
    pub ncch_version_rhs: Option<StringWrapper<u16>>,
    pub program_id: Option<String>,
    pub program_id_mask: Option<String>,
    pub product_code: Option<String>,
    pub secondary_key_slot_cmp: Option<Comparator>,
    pub secondary_key_slot_rhs: Option<StringWrapper<u8>>,
    pub platform: Option<u8>,
    pub content_is_data: Option<StringWrapper<bool>>,
    pub content_is_executable: Option<StringWrapper<bool>>,
    pub content_category_cmp: Option<Comparator>,
    pub content_category_rhs: Option<StringWrapper<u8>>,
    pub content_unit_size_cmp: Option<Comparator>,
    pub content_unit_size_rhs: Option<StringWrapper<u8>>,
    pub fixed_key: Option<StringWrapper<bool>>,
    pub no_romfs: Option<StringWrapper<bool>>,
    pub no_crypto: Option<StringWrapper<bool>>,
    pub seed_crypto: Option<StringWrapper<bool>>,
    pub exheader_name: Option<String>,
    pub sd_app: Option<StringWrapper<bool>>,
    pub save_data_size_cmp: Option<Comparator>,
    pub save_data_size_rhs: Option<StringWrapper<u64>>,
    pub jump_id: Option<String>,
    pub jump_id_mask: Option<String>,
    pub exheader_program_id: Option<String>,
    pub exheader_program_id_mask: Option<String>,
    pub core_version_cmp: Option<Comparator>,
    pub core_version_rhs: Option<StringWrapper<u32>>,
    pub enable_l2_cache: Option<StringWrapper<bool>>,
    pub high_cpu_speed: Option<StringWrapper<bool>>,
    pub system_mode_cmp: Option<Comparator>,
    pub system_mode_rhs: Option<StringWrapper<u8>>,
    pub n3ds_system_mode_cmp: Option<Comparator>,
    pub n3ds_system_mode_rhs: Option<StringWrapper<u8>>,
    pub ideal_processor_cmp: Option<Comparator>,
    pub ideal_processor_rhs: Option<StringWrapper<u8>>,
    pub affinity_mask_cmp: Option<Comparator>,
    pub affinity_mask_rhs: Option<StringWrapper<u8>>,
    pub thread_priority_cmp: Option<Comparator>,
    pub thread_priority_rhs: Option<StringWrapper<u8>>,
    pub filesystem_flag: Option<StringWrapper<u64>>,
    pub filesystem_flag_mask: Option<StringWrapper<u64>>,
    pub resource_limit_category_cmp: Option<Comparator>,
    pub resource_limit_category_rhs: Option<StringWrapper<u8>>,
    pub arm9_flag: Option<StringWrapper<u32>>,
    pub arm9_flag_mask: Option<StringWrapper<u32>>,
    pub arm9_flag_version: Option<StringWrapper<u8>>,
    pub region_lockout: Option<StringWrapper<u32>>,
    pub region_lockout_mask: Option<StringWrapper<u32>>,
    pub match_maker_id: Option<String>,
    pub match_maker_bit_id: Option<String>,
    pub smdh_flag: Option<StringWrapper<u32>>,
    pub smdh_flag_mask: Option<StringWrapper<u32>>,
    pub eula_version_cmp: Option<Comparator>,
    pub eula_version_rhs: Option<StringWrapper<u16>>,
    pub cec_id: Option<String>,
}

/// A catalog query: a page window over the filtered records.
#[derive(Debug, Clone)]
pub struct NcchQueryParam {
    pub offset: i64,
    pub limit: i64,
    pub filter: NcchFilterParam,
}

#[derive(Debug, Clone)]
pub struct NcchInfoVec {
    pub ncchs: Vec<NcchInfo>,
}

#[derive(Debug, Clone)]
pub enum NcchQueryResponse {
    Success(NcchInfoVec),
    InternalServerError,
}

#[derive(Debug, Clone)]
pub struct NcchCount {
    pub count: i64,
}

#[derive(Debug, Clone)]
pub enum NcchQueryCountResponse {
    Success(NcchCount),
    InternalServerError,
}

} // verus!
