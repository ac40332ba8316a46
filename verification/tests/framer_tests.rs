use tiny_proxy::framer::{read_header, FeedResult, HeaderFramer};
use tiny_proxy::Error;

#[test]
fn test_reader_header_one_byte_err() {
    const H: &[u8] = b"GET /hello world";
    let res = read_header(H, H.len()).unwrap_err();
    assert!(matches!(res, Error::ReadHeaderBufferOverflow))
}

#[test]
fn test_reader_header_one_line_err() {
    const H: &[u8] = b"GET /hello world";
    let res = read_header(H, H.len()).unwrap_err();
    assert!(matches!(res, Error::ReadHeaderBufferOverflow))
}

#[test]
fn test_reader_header_ok() {
    const H: &[u8] = b"GET /hello world\r\nHost: hello-world.com\r\n\r\n";
    let res = read_header(H, H.len()).unwrap();
    assert_eq!(res, (43, 43));
}

#[test]
fn test_reader_header_data_ok() {
    const H: &[u8] = b"GET /hello world\r\nHost: hello-world.com\r\n\r\ndata";
    let (idx, _) = read_header(H, H.len()).unwrap();
    assert_eq!(idx, 43);
}

#[test]
fn test_reader_header_errror_incorrect_data() {
    const H: &[u8] = b"";
    let res = read_header(H, 50).unwrap_err();
    assert!(
        matches!(res, Error::ReadHeaderIncorrectRequest),
        "expected error ReadHeaderIncorrectData"
    );
}

#[test]
fn test_reader_header_error_buffer_overflow() {
    const H: &[u8] = b"GET /hello world\r\nHost: hello-world.com\r\n\rdata";
    let res = read_header(H, H.len()).unwrap_err();
    assert!(
        matches!(res, Error::ReadHeaderBufferOverflow),
        "expected error ReadHeaderBufferOverflow"
    );
}

#[test]
fn head_end_is_just_past_terminator_and_within_total() {
    const H: &[u8] = b"GET / HTTP/1.1\nHost: a\n\ntrailing";
    let (head_end, total) = read_header(H, 100).unwrap();
    assert_eq!(head_end, 24);
    assert_eq!(total, H.len());
    assert!(head_end <= total);
}

#[test]
fn oversized_head_fails_with_buffer_overflow() {
    const H: &[u8] = b"GET / HTTP/1.1\r\nHost: hello-world.com\r\n\r\n";
    let res = read_header(H, 10).unwrap_err();
    assert!(matches!(res, Error::ReadHeaderBufferOverflow));
}

#[test]
fn early_close_fails_with_incorrect_request() {
    const H: &[u8] = b"GET / HTTP/1.1\r\nHost:";
    let res = read_header(H, 100).unwrap_err();
    assert!(matches!(res, Error::ReadHeaderIncorrectRequest));
}

#[test]
fn framer_finds_terminator_across_chunks() {
    let mut fr = HeaderFramer::new(64);
    match fr.feed(b"GET / HTTP/1.1\r\nHost: a\r") {
        FeedResult::More => {}
        _ => panic!("expected more"),
    }
    match fr.feed(b"\n\r\nrest") {
        FeedResult::Found { head_end, total } => {
            assert_eq!(head_end, 27);
            assert_eq!(total, 31);
        }
        _ => panic!("expected found"),
    }
}

#[test]
fn framer_reports_closed_on_empty_chunk() {
    let mut fr = HeaderFramer::new(16);
    match fr.feed(b"") {
        FeedResult::Closed => {}
        _ => panic!("expected closed"),
    }
}

#[test]
fn fresh_framer_rerun_gives_same_frame() {
    const H: &[u8] = b"GET /hello world\r\nHost: hello-world.com\r\n\r\ndata";
    let first = read_header(H, H.len()).unwrap();
    let second = read_header(H, H.len()).unwrap();
    assert_eq!(first, second);
}
