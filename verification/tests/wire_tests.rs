use collab_core::protocol::{AppRequest, AppResponse};
use collab_core::wire::{decode_request, decode_response, encode_request, encode_response};

fn req_round_trip(m: AppRequest) {
    let bytes = encode_request(&m);
    assert_eq!(decode_request(&bytes), Some(m));
}

fn resp_round_trip(m: AppResponse) {
    let bytes = encode_response(&m);
    assert_eq!(decode_response(&bytes), Some(m));
}

#[test]
fn round_trip_join() {
    req_round_trip(AppRequest::Join { username: "Guest".to_string() });
    req_round_trip(AppRequest::Join { username: String::new() });
}

#[test]
fn round_trip_sync() {
    req_round_trip(AppRequest::Sync { path: "src/main.rs".to_string(), data: vec![0, 1, 2, 255] });
    req_round_trip(AppRequest::Sync { path: String::new(), data: Vec::new() });
}

#[test]
fn round_trip_file_content() {
    req_round_trip(AppRequest::FileContent { path: "notes.txt".to_string(), data: vec![10; 1000] });
}

#[test]
fn round_trip_request_sync() {
    req_round_trip(AppRequest::RequestSync { path: "a/b/c".to_string() });
}

#[test]
fn round_trip_ping() {
    req_round_trip(AppRequest::Ping);
}

#[test]
fn round_trip_unicode_path() {
    req_round_trip(AppRequest::RequestSync { path: "héllo/wörld/文档.txt".to_string() });
    req_round_trip(AppRequest::Join { username: "ünïcode 🙂".to_string() });
}

#[test]
fn round_trip_join_response() {
    resp_round_trip(AppResponse::Join { accepted: true, content: Some(vec![1, 2, 3]) });
    resp_round_trip(AppResponse::Join { accepted: true, content: Some(Vec::new()) });
    resp_round_trip(AppResponse::Join { accepted: false, content: None });
}

#[test]
fn round_trip_ack_and_pong() {
    resp_round_trip(AppResponse::Ack);
    resp_round_trip(AppResponse::Pong);
}

#[test]
fn exact_bytes_ping() {
    assert_eq!(encode_request(&AppRequest::Ping), vec![5u8]);
}

#[test]
fn exact_bytes_join() {
    let bytes = encode_request(&AppRequest::Join { username: "ab".to_string() });
    assert_eq!(bytes, vec![1u8, 2, 0, 0, 0, 0, 0, 0, 0, 97, 98]);
}

#[test]
fn exact_bytes_join_response() {
    let bytes = encode_response(&AppResponse::Join { accepted: true, content: Some(vec![7]) });
    assert_eq!(bytes, vec![1u8, 1, 1, 1, 0, 0, 0, 0, 0, 0, 0, 7]);
    assert_eq!(encode_response(&AppResponse::Join { accepted: false, content: None }), vec![
        1u8, 0, 0
    ]);
}

#[test]
fn decode_rejects_empty() {
    assert_eq!(decode_request(&Vec::new()), None);
    assert_eq!(decode_response(&Vec::new()), None);
}

#[test]
fn decode_rejects_unknown_tag() {
    assert_eq!(decode_request(&vec![0u8]), None);
    assert_eq!(decode_request(&vec![6u8]), None);
    assert_eq!(decode_response(&vec![4u8]), None);
}

#[test]
fn decode_rejects_trailing_bytes() {
    let mut bytes = encode_request(&AppRequest::Ping);
    bytes.push(0);
    assert_eq!(decode_request(&bytes), None);
    let mut bytes = encode_request(&AppRequest::RequestSync { path: "p".to_string() });
    bytes.push(9);
    assert_eq!(decode_request(&bytes), None);
}

#[test]
fn decode_rejects_truncated_input() {
    let bytes = encode_request(&AppRequest::Sync { path: "p".to_string(), data: vec![1, 2, 3] });
    for cut in 0..bytes.len() {
        if cut == 0 {
            continue;
        }
        let shorter = bytes[..bytes.len() - cut].to_vec();
        assert_eq!(decode_request(&shorter), None);
    }
}

#[test]
fn decode_rejects_oversized_length_prefix() {
    // Tag for a request-full-sync, then a length prefix far past the buffer.
    let bytes = vec![4u8, 255, 255, 255, 255, 255, 255, 255, 255];
    assert_eq!(decode_request(&bytes), None);
}

#[test]
fn decode_rejects_bad_boolean_byte() {
    // A join decision whose accepted byte is neither 0 nor 1.
    let bytes = vec![1u8, 2, 0];
    assert_eq!(decode_response(&bytes), None);
}

#[test]
fn decode_rejects_bad_option_byte() {
    // A join decision whose presence byte is neither 0 nor 1.
    let bytes = vec![1u8, 1, 2];
    assert_eq!(decode_response(&bytes), None);
}

#[test]
fn decode_rejects_invalid_utf8() {
    // A join request whose name bytes are not UTF-8.
    let bytes = vec![1u8, 2, 0, 0, 0, 0, 0, 0, 0, 0xFF, 0xFE];
    assert_eq!(decode_request(&bytes), None);
}
