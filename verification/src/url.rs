//! The endpoint paths served by the ingestion adapter.
use crate::strutil::append_str;
use vstd::prelude::*;

verus! {

pub fn post_ncch() -> (r: &'static str)
    ensures
        r@ == "/post_ncch"@,
{
    "/post_ncch"
}

pub fn append_ncch(session_id: &str) -> (r: String)
    ensures
        r@ == "/append_ncch/"@ + session_id@,
{
    let mut s = String::new();
    append_str(&mut s, "/append_ncch/");
    append_str(&mut s, session_id);
    proof {
        assert(s@ =~= "/append_ncch/"@ + session_id@);
    }
    s
}

pub fn ncch_info(ncch_id: &str, info_type: &str) -> (r: String)
    ensures
        r@ == "/ncch/"@ + ncch_id@ + "/"@ + info_type@,
{
    let mut s = String::new();
    append_str(&mut s, "/ncch/");
    append_str(&mut s, ncch_id);
    append_str(&mut s, "/");
    append_str(&mut s, info_type);
    proof {
        assert(s@ =~= "/ncch/"@ + ncch_id@ + "/"@ + info_type@);
    }
    s
}

pub fn submit_ncch() -> (r: &'static str)
    ensures
        r@ == "/submit_ncch"@,
{
    "/submit_ncch"
}

pub fn ncch() -> (r: &'static str)
    ensures
        r@ == "/ncch"@,
{
    "/ncch"
}

pub fn ncch_list() -> (r: &'static str)
    ensures
        r@ == "/"@,
{
    "/"
}

pub fn query_ncch() -> (r: &'static str)
    ensures
        r@ == "/query_ncch"@,
{
    "/query_ncch"
}

pub fn query_ncch_count() -> (r: &'static str)
    ensures
        r@ == "/query_ncch_count"@,
{
    "/query_ncch_count"
}

pub fn not_found_small() -> (r: &'static str)
    ensures
        r@ == "/notfound24.png"@,
{
    "/notfound24.png"
}

pub fn not_found_large() -> (r: &'static str)
    ensures
        r@ == "/notfound48.png"@,
{
    "/notfound48.png"
}

} // verus!
