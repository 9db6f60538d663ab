//! The byte strings of the wire protocol and of the fixed routes, each as a
//! spec-level sequence paired with an executable constructor proved to match it.

use vstd::prelude::*;

verus! {

/// `"\r\n"` as bytes.
pub open spec fn spec_crlf() -> Seq<u8> {
    seq![13u8, 10u8]
}

pub fn crlf() -> (r: Vec<u8>)
    ensures
        r@ == spec_crlf(),
{
    let r: Vec<u8> = vec![13u8, 10u8];
    proof {
        assert(r@ =~= spec_crlf());
    }
    r
}

/// `"\r\n\r\n"` as bytes.
pub open spec fn spec_crlf2() -> Seq<u8> {
    seq![13u8, 10u8, 13u8, 10u8]
}

pub fn crlf2() -> (r: Vec<u8>)
    ensures
        r@ == spec_crlf2(),
{
    let r: Vec<u8> = vec![13u8, 10u8, 13u8, 10u8];
    proof {
        assert(r@ =~= spec_crlf2());
    }
    r
}

/// `": "` as bytes.
pub open spec fn spec_colon_sp() -> Seq<u8> {
    seq![58u8, 32u8]
}

pub fn colon_sp() -> (r: Vec<u8>)
    ensures
        r@ == spec_colon_sp(),
{
    let r: Vec<u8> = vec![58u8, 32u8];
    proof {
        assert(r@ =~= spec_colon_sp());
    }
    r
}

/// `", "` as bytes.
pub open spec fn spec_comma_sp() -> Seq<u8> {
    seq![44u8, 32u8]
}

pub fn comma_sp() -> (r: Vec<u8>)
    ensures
        r@ == spec_comma_sp(),
{
    let r: Vec<u8> = vec![44u8, 32u8];
    proof {
        assert(r@ =~= spec_comma_sp());
    }
    r
}

/// `"HTTP/1.1 "` as bytes.
pub open spec fn spec_http_prefix() -> Seq<u8> {
    seq![72u8, 84u8, 84u8, 80u8, 47u8, 49u8, 46u8, 49u8, 32u8]
}

pub fn http_prefix() -> (r: Vec<u8>)
    ensures
        r@ == spec_http_prefix(),
{
    let r: Vec<u8> = vec![72u8, 84u8, 84u8, 80u8, 47u8, 49u8, 46u8, 49u8, 32u8];
    proof {
        assert(r@ =~= spec_http_prefix());
    }
    r
}

/// `"OK"` as bytes.
pub open spec fn spec_msg_ok() -> Seq<u8> {
    seq![79u8, 75u8]
}

pub fn msg_ok() -> (r: Vec<u8>)
    ensures
        r@ == spec_msg_ok(),
{
    let r: Vec<u8> = vec![79u8, 75u8];
    proof {
        assert(r@ =~= spec_msg_ok());
    }
    r
}

/// `"Not Found"` as bytes.
pub open spec fn spec_msg_not_found() -> Seq<u8> {
    seq![78u8, 111u8, 116u8, 32u8, 70u8, 111u8, 117u8, 110u8, 100u8]
}

pub fn msg_not_found() -> (r: Vec<u8>)
    ensures
        r@ == spec_msg_not_found(),
{
    let r: Vec<u8> = vec![78u8, 111u8, 116u8, 32u8, 70u8, 111u8, 117u8, 110u8, 100u8];
    proof {
        assert(r@ =~= spec_msg_not_found());
    }
    r
}

/// `"Created"` as bytes.
pub open spec fn spec_msg_created() -> Seq<u8> {
    seq![67u8, 114u8, 101u8, 97u8, 116u8, 101u8, 100u8]
}

pub fn msg_created() -> (r: Vec<u8>)
    ensures
        r@ == spec_msg_created(),
{
    let r: Vec<u8> = vec![67u8, 114u8, 101u8, 97u8, 116u8, 101u8, 100u8];
    proof {
        assert(r@ =~= spec_msg_created());
    }
    r
}

/// `"Internal Server Error"` as bytes.
pub open spec fn spec_msg_internal_error() -> Seq<u8> {
    seq![73u8, 110u8, 116u8, 101u8, 114u8, 110u8, 97u8, 108u8, 32u8, 83u8, 101u8, 114u8, 118u8, 101u8, 114u8, 32u8, 69u8, 114u8, 114u8, 111u8, 114u8]
}

pub fn msg_internal_error() -> (r: Vec<u8>)
    ensures
        r@ == spec_msg_internal_error(),
{
    let r: Vec<u8> = vec![73u8, 110u8, 116u8, 101u8, 114u8, 110u8, 97u8, 108u8, 32u8, 83u8, 101u8, 114u8, 118u8, 101u8, 114u8, 32u8, 69u8, 114u8, 114u8, 111u8, 114u8];
    proof {
        assert(r@ =~= spec_msg_internal_error());
    }
    r
}

/// `"/"` as bytes.
pub open spec fn spec_root_path() -> Seq<u8> {
    seq![47u8]
}

pub fn root_path() -> (r: Vec<u8>)
    ensures
        r@ == spec_root_path(),
{
    let r: Vec<u8> = vec![47u8];
    proof {
        assert(r@ =~= spec_root_path());
    }
    r
}

/// `"/echo"` as bytes.
pub open spec fn spec_echo_prefix() -> Seq<u8> {
    seq![47u8, 101u8, 99u8, 104u8, 111u8]
}

pub fn echo_prefix() -> (r: Vec<u8>)
    ensures
        r@ == spec_echo_prefix(),
{
    let r: Vec<u8> = vec![47u8, 101u8, 99u8, 104u8, 111u8];
    proof {
        assert(r@ =~= spec_echo_prefix());
    }
    r
}

/// `"/user-agent"` as bytes.
pub open spec fn spec_user_agent_path() -> Seq<u8> {
    seq![47u8, 117u8, 115u8, 101u8, 114u8, 45u8, 97u8, 103u8, 101u8, 110u8, 116u8]
}

pub fn user_agent_path() -> (r: Vec<u8>)
    ensures
        r@ == spec_user_agent_path(),
{
    let r: Vec<u8> = vec![47u8, 117u8, 115u8, 101u8, 114u8, 45u8, 97u8, 103u8, 101u8, 110u8, 116u8];
    proof {
        assert(r@ =~= spec_user_agent_path());
    }
    r
}

/// `"/files"` as bytes.
pub open spec fn spec_files_prefix() -> Seq<u8> {
    seq![47u8, 102u8, 105u8, 108u8, 101u8, 115u8]
}

pub fn files_prefix() -> (r: Vec<u8>)
    ensures
        r@ == spec_files_prefix(),
{
    let r: Vec<u8> = vec![47u8, 102u8, 105u8, 108u8, 101u8, 115u8];
    proof {
        assert(r@ =~= spec_files_prefix());
    }
    r
}

/// `"GET"` as bytes.
pub open spec fn spec_method_get() -> Seq<u8> {
    seq![71u8, 69u8, 84u8]
}

pub fn method_get() -> (r: Vec<u8>)
    ensures
        r@ == spec_method_get(),
{
    let r: Vec<u8> = vec![71u8, 69u8, 84u8];
    proof {
        assert(r@ =~= spec_method_get());
    }
    r
}

/// `"POST"` as bytes.
pub open spec fn spec_method_post() -> Seq<u8> {
    seq![80u8, 79u8, 83u8, 84u8]
}

pub fn method_post() -> (r: Vec<u8>)
    ensures
        r@ == spec_method_post(),
{
    let r: Vec<u8> = vec![80u8, 79u8, 83u8, 84u8];
    proof {
        assert(r@ =~= spec_method_post());
    }
    r
}

/// `"User-Agent"` as bytes.
pub open spec fn spec_hdr_user_agent() -> Seq<u8> {
    seq![85u8, 115u8, 101u8, 114u8, 45u8, 65u8, 103u8, 101u8, 110u8, 116u8]
}

pub fn hdr_user_agent() -> (r: Vec<u8>)
    ensures
        r@ == spec_hdr_user_agent(),
{
    let r: Vec<u8> = vec![85u8, 115u8, 101u8, 114u8, 45u8, 65u8, 103u8, 101u8, 110u8, 116u8];
    proof {
        assert(r@ =~= spec_hdr_user_agent());
    }
    r
}

/// `"Accept-Encoding"` as bytes.
pub open spec fn spec_hdr_accept_encoding() -> Seq<u8> {
    seq![65u8, 99u8, 99u8, 101u8, 112u8, 116u8, 45u8, 69u8, 110u8, 99u8, 111u8, 100u8, 105u8, 110u8, 103u8]
}

pub fn hdr_accept_encoding() -> (r: Vec<u8>)
    ensures
        r@ == spec_hdr_accept_encoding(),
{
    let r: Vec<u8> = vec![65u8, 99u8, 99u8, 101u8, 112u8, 116u8, 45u8, 69u8, 110u8, 99u8, 111u8, 100u8, 105u8, 110u8, 103u8];
    proof {
        assert(r@ =~= spec_hdr_accept_encoding());
    }
    r
}

/// `"Content-Type"` as bytes.
pub open spec fn spec_hdr_content_type() -> Seq<u8> {
    seq![67u8, 111u8, 110u8, 116u8, 101u8, 110u8, 116u8, 45u8, 84u8, 121u8, 112u8, 101u8]
}

pub fn hdr_content_type() -> (r: Vec<u8>)
    ensures
        r@ == spec_hdr_content_type(),
{
    let r: Vec<u8> = vec![67u8, 111u8, 110u8, 116u8, 101u8, 110u8, 116u8, 45u8, 84u8, 121u8, 112u8, 101u8];
    proof {
        assert(r@ =~= spec_hdr_content_type());
    }
    r
}

/// `"Content-Length"` as bytes.
pub open spec fn spec_hdr_content_length() -> Seq<u8> {
    seq![67u8, 111u8, 110u8, 116u8, 101u8, 110u8, 116u8, 45u8, 76u8, 101u8, 110u8, 103u8, 116u8, 104u8]
}

pub fn hdr_content_length() -> (r: Vec<u8>)
    ensures
        r@ == spec_hdr_content_length(),
{
    let r: Vec<u8> = vec![67u8, 111u8, 110u8, 116u8, 101u8, 110u8, 116u8, 45u8, 76u8, 101u8, 110u8, 103u8, 116u8, 104u8];
    proof {
        assert(r@ =~= spec_hdr_content_length());
    }
    r
}

/// `"Content-Encoding"` as bytes.
pub open spec fn spec_hdr_content_encoding() -> Seq<u8> {
    seq![67u8, 111u8, 110u8, 116u8, 101u8, 110u8, 116u8, 45u8, 69u8, 110u8, 99u8, 111u8, 100u8, 105u8, 110u8, 103u8]
}

pub fn hdr_content_encoding() -> (r: Vec<u8>)
    ensures
        r@ == spec_hdr_content_encoding(),
{
    let r: Vec<u8> = vec![67u8, 111u8, 110u8, 116u8, 101u8, 110u8, 116u8, 45u8, 69u8, 110u8, 99u8, 111u8, 100u8, 105u8, 110u8, 103u8];
    proof {
        assert(r@ =~= spec_hdr_content_encoding());
    }
    r
}

/// `"gzip"` as bytes.
pub open spec fn spec_val_gzip() -> Seq<u8> {
    seq![103u8, 122u8, 105u8, 112u8]
}

pub fn val_gzip() -> (r: Vec<u8>)
    ensures
        r@ == spec_val_gzip(),
{
    let r: Vec<u8> = vec![103u8, 122u8, 105u8, 112u8];
    proof {
        assert(r@ =~= spec_val_gzip());
    }
    r
}

/// `"text/plain"` as bytes.
pub open spec fn spec_val_text_plain() -> Seq<u8> {
    seq![116u8, 101u8, 120u8, 116u8, 47u8, 112u8, 108u8, 97u8, 105u8, 110u8]
}

pub fn val_text_plain() -> (r: Vec<u8>)
    ensures
        r@ == spec_val_text_plain(),
{
    let r: Vec<u8> = vec![116u8, 101u8, 120u8, 116u8, 47u8, 112u8, 108u8, 97u8, 105u8, 110u8];
    proof {
        assert(r@ =~= spec_val_text_plain());
    }
    r
}

/// `"application/octet-stream"` as bytes.
pub open spec fn spec_val_octet_stream() -> Seq<u8> {
    seq![97u8, 112u8, 112u8, 108u8, 105u8, 99u8, 97u8, 116u8, 105u8, 111u8, 110u8, 47u8, 111u8, 99u8, 116u8, 101u8, 116u8, 45u8, 115u8, 116u8, 114u8, 101u8, 97u8, 109u8]
}

pub fn val_octet_stream() -> (r: Vec<u8>)
    ensures
        r@ == spec_val_octet_stream(),
{
    let r: Vec<u8> = vec![97u8, 112u8, 112u8, 108u8, 105u8, 99u8, 97u8, 116u8, 105u8, 111u8, 110u8, 47u8, 111u8, 99u8, 116u8, 101u8, 116u8, 45u8, 115u8, 116u8, 114u8, 101u8, 97u8, 109u8];
    proof {
        assert(r@ =~= spec_val_octet_stream());
    }
    r
}

} // verus!
