use wasm_build_runtime::fetch::{decode_response, encode_headers, FetchError};

fn frame(status: i32, headers: &str, body: &[u8]) -> Vec<u8> {
    let mut f = status.to_le_bytes().to_vec();
    f.extend_from_slice(&(headers.len() as i32).to_le_bytes());
    f.extend_from_slice(headers.as_bytes());
    f.extend_from_slice(body);
    f
}

#[test]
fn decodes_a_response() {
    let r = decode_response(&frame(200, "[[\"content-type\",\"text/plain\"]]", b"hello")).unwrap();
    assert_eq!(r.status, 200);
    assert_eq!(r.headers, vec![("content-type".to_string(), "text/plain".to_string())]);
    assert_eq!(r.body, b"hello".to_vec());
}

#[test]
fn status_other_than_ok_fails() {
    assert!(matches!(decode_response(&frame(404, "[]", b"")), Err(FetchError::Fetch(404))));
    assert!(matches!(decode_response(&frame(-1, "[]", b"")), Err(FetchError::Fetch(-1))));
}

#[test]
fn body_must_be_utf8() {
    assert!(matches!(decode_response(&frame(200, "[]", &[0xff, 0xfe])), Err(FetchError::Utf8(_))));
}

#[test]
fn malformed_frames_are_refused() {
    assert!(matches!(decode_response(&[200, 0, 0]), Err(FetchError::Malformed)));
    let mut f = frame(200, "[]", b"");
    f[4] = 50;
    assert!(matches!(decode_response(&f), Err(FetchError::Malformed)));
    assert!(matches!(decode_response(&frame(200, "{}", b"")), Err(FetchError::Malformed)));
    let mut f = 200i32.to_le_bytes().to_vec();
    f.extend_from_slice(&(-1i32).to_le_bytes());
    assert!(matches!(decode_response(&f), Err(FetchError::Malformed)));
}

#[test]
fn headers_encode_as_pairs() {
    let h = vec![("a".to_string(), "1".to_string()), ("b".to_string(), "x\"y".to_string())];
    assert_eq!(encode_headers(&h), "[[\"a\",\"1\"],[\"b\",\"x\\\"y\"]]");
    assert_eq!(encode_headers(&Vec::new()), "[]");
}
