//! The frame in which the host hands back the answer to a fetch: four bytes
//! of status, four bytes of header length (both little-endian), the headers
//! as a JSON list of pairs, then the body.

use vstd::prelude::*;
use vstd::utf8::{decode_utf8, valid_utf8};
use crate::json::json_text_of_pairs;
use crate::outside::{json_string_pairs, parse_string_pairs, write_string_pairs};
use crate::runner::vars_view;
use crate::text::copy_range;

verus! {

/// Why a fetch failed.
#[derive(Debug)]
pub enum FetchError {
    /// The host answered with a status other than 200.
    Fetch(i32),
    /// The host gave up waiting.
    Timeout,
    /// The body is not UTF-8.
    Utf8(std::string::FromUtf8Error),
    /// The frame is too short, or its headers are not a JSON list of pairs
    /// of strings.
    Malformed,
}

/// A successful answer.
#[derive(Debug)]
pub struct Response {
    pub status: i32,
    pub headers: Vec<(String, String)>,
    pub body: Vec<u8>,
}

/// The unsigned value of the four little-endian bytes of `b` at `at`.
pub open spec fn le_value(b: Seq<u8>, at: int) -> int {
    b[at] as int + 256 * b[at + 1] as int + 65536 * b[at + 2] as int + 16777216 * b[at + 3] as int
}

/// The signed 32-bit integer of the four little-endian bytes of `b` at `at`.
pub open spec fn le_i32(b: Seq<u8>, at: int) -> i32 {
    if le_value(b, at) < 0x8000_0000 {
        le_value(b, at) as i32
    } else {
        (le_value(b, at) - 0x1_0000_0000) as i32
    }
}

fn read_le_i32(b: &[u8], at: usize) -> (r: i32)
    requires
        at + 4 <= b@.len(),
    ensures
        r == le_i32(b@, at as int),
{
    let v: u64 = b[at] as u64 + 256 * (b[at + 1] as u64) + 65536 * (b[at + 2] as u64)
        + 16777216 * (b[at + 3] as u64);
    if v < 0x8000_0000 {
        v as i32
    } else {
        let w: i64 = (v as i64) - 0x1_0000_0000;
        w as i32
    }
}

/// Whether the frame is long enough for its header block.
pub open spec fn frame_fits(f: Seq<u8>) -> bool {
    f.len() >= 8 && le_i32(f, 4) >= 0 && 8 + le_i32(f, 4) <= f.len()
}

/// The header block of a frame.
pub open spec fn header_block(f: Seq<u8>) -> Seq<u8> {
    f.subrange(8, 8 + le_i32(f, 4))
}

/// The body of a frame.
pub open spec fn body_block(f: Seq<u8>) -> Seq<u8> {
    f.skip(8 + le_i32(f, 4))
}

/// Whether the frame's headers are a JSON list of pairs of strings.
pub open spec fn headers_readable(f: Seq<u8>) -> bool {
    frame_fits(f) && valid_utf8(header_block(f)) && json_string_pairs(decode_utf8(header_block(f))) is Some
}

/// Decodes the frame of a fetch answer. A status other than 200 is an
/// error; a body that is not UTF-8 is an error; a frame too short for its
/// headers, or with headers that are not a JSON list of pairs, is refused.
pub fn decode_response(frame: &[u8]) -> (r: Result<Response, FetchError>)
    ensures
        !headers_readable(frame@) ==> r matches Err(FetchError::Malformed),
        headers_readable(frame@) && le_i32(frame@, 0) != 200 ==> (r matches Err(FetchError::Fetch(s)) && s == le_i32(frame@, 0)),
        headers_readable(frame@) && le_i32(frame@, 0) == 200 && !valid_utf8(body_block(frame@))
            ==> (r matches Err(FetchError::Utf8(_))),
        headers_readable(frame@) && le_i32(frame@, 0) == 200 && valid_utf8(body_block(frame@))
            ==> (r matches Ok(resp) && resp.status == 200
                && Some(vars_view(resp.headers@)) == json_string_pairs(decode_utf8(header_block(frame@)))
                && resp.body@ == body_block(frame@)),
{
    if frame.len() < 8 {
        return Err(FetchError::Malformed);
    }
    let status = read_le_i32(frame, 0);
    let headers_len = read_le_i32(frame, 4);
    if headers_len < 0 || headers_len as usize > frame.len() - 8 {
        return Err(FetchError::Malformed);
    }
    let end: usize = 8 + headers_len as usize;
    let header_bytes = copy_range(frame, 8, end);
    let header_text = match String::from_utf8(header_bytes) {
        Ok(t) => t,
        Err(_) => return Err(FetchError::Malformed),
    };
    let headers = match parse_string_pairs(header_text.as_str()) {
        Ok(h) => h,
        Err(_) => return Err(FetchError::Malformed),
    };
    if status != 200 {
        return Err(FetchError::Fetch(status));
    }
    let body = copy_range(frame, end, frame.len());
    assert(body@ =~= body_block(frame@));
    match String::from_utf8(body.clone()) {
        Ok(_) => Ok(Response { status, headers, body }),
        Err(e) => Err(FetchError::Utf8(e)),
    }
}

/// The headers of a fetch request as the JSON text that the host reads: a
/// list of two-string arrays.
pub fn encode_headers(headers: &Vec<(String, String)>) -> (r: String)
    ensures
        r@ == json_text_of_pairs(vars_view(headers@)),
{
    match write_string_pairs(headers) {
        Ok(s) => s,
        Err(_) => String::new(),
    }
}

} // verus!
