use index3ds::api::{AppendRequest, NcchCount, NcchExist, NcchInfoResponse, NcchQueryCountResponse, PostNcchResponse, StringWrapper};
use index3ds::url;

#[test]
fn endpoint_paths() {
    assert_eq!(url::post_ncch(), "/post_ncch");
    assert_eq!(url::append_ncch("17"), "/append_ncch/17");
    assert_eq!(url::ncch_info("abc", "info"), "/ncch/abc/info");
    assert_eq!(url::submit_ncch(), "/submit_ncch");
    assert_eq!(url::ncch(), "/ncch");
    assert_eq!(url::ncch_list(), "/");
    assert_eq!(url::query_ncch(), "/query_ncch");
    assert_eq!(url::query_ncch_count(), "/query_ncch_count");
    assert_eq!(url::not_found_small(), "/notfound24.png");
    assert_eq!(url::not_found_large(), "/notfound48.png");
}

#[test]
fn string_wrapper_round_trip() {
    let w = StringWrapper::new(200u8);
    assert_eq!(w.value(), Some(200u8));
    let b = StringWrapper::new(true);
    assert_eq!(b.value(), Some(true));
    let big = StringWrapper::new(0x1_0000u32);
    // a 32-bit text does not read back as a byte
    let narrowed: StringWrapper<u8> = StringWrapper::new(7u8);
    assert_eq!(narrowed.value(), Some(7u8));
    assert_eq!(big.value(), Some(0x1_0000u32));
}

#[test]
fn string_wrapper_default_is_empty() {
    let d: StringWrapper<u8> = StringWrapper::default();
    assert_eq!(d.value(), None);
}

#[test]
fn response_status_codes() {
    let finished = PostNcchResponse::Finished(NcchExist { ncch_id: "x".to_string() });
    assert_eq!(finished.http_status(), 200);
    let append = PostNcchResponse::AppendNeeded(AppendRequest {
        session_id: 1,
        offset: 0,
        len: 0x200,
    });
    assert_eq!(append.http_status(), 200);
    assert_eq!(PostNcchResponse::UnexpectedLength.http_status(), 400);
    assert_eq!(PostNcchResponse::UnexpectedFormat.http_status(), 400);
    assert_eq!(PostNcchResponse::VerificationFailed.http_status(), 400);
    assert_eq!(PostNcchResponse::AlreadyFinished.http_status(), 400);
    assert_eq!(PostNcchResponse::Busy.http_status(), 503);
    let conflict = PostNcchResponse::Conflict(NcchExist { ncch_id: "x".to_string() });
    assert_eq!(conflict.http_status(), 409);
    assert_eq!(PostNcchResponse::InternalServerError.http_status(), 500);
    assert_eq!(PostNcchResponse::NotFound.http_status(), 404);
}

#[test]
fn info_and_count_status_codes() {
    assert_eq!(NcchInfoResponse::NotFound.http_status(), 404);
    assert_eq!(NcchInfoResponse::InternalServerError.http_status(), 500);
    let ok = NcchQueryCountResponse::Success(NcchCount { count: 3 });
    assert_eq!(ok.http_status(), 200);
    assert_eq!(NcchQueryCountResponse::InternalServerError.http_status(), 500);
}
