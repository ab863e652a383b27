use nadbridge::http::{
    bad_chunk_size, parse_chunk_size, parse_head, HttpStep, Response, ResponseReader,
};

/// Hands the stream over in pieces of `size` bytes.
fn read(stream: &[u8], size: usize) -> HttpStep {
    let mut reader = ResponseReader::new();
    for piece in stream.chunks(size) {
        match reader.received(piece) {
            HttpStep::More(next) => reader = next,
            end => return end,
        }
    }
    HttpStep::More(reader)
}

fn done(stream: &[u8]) -> (String, bool) {
    let mut results = Vec::new();
    for size in 1..=stream.len() {
        match read(stream, size) {
            HttpStep::Done(Response { status_line, keep_alive }) => {
                results.push((status_line, keep_alive))
            }
            HttpStep::Failed(e) => panic!("failed: {}", e),
            HttpStep::More(_) => panic!("not complete"),
        }
    }
    results.dedup();
    assert_eq!(results.len(), 1);
    results.remove(0)
}

fn incomplete(stream: &[u8]) -> bool {
    matches!(read(stream, 7), HttpStep::More(_))
}

fn failure(stream: &[u8]) -> String {
    match read(stream, 3) {
        HttpStep::Failed(e) => e,
        _ => panic!("no failure"),
    }
}

#[test]
fn a_body_of_known_length_is_awaited() {
    let stream = b"HTTP/1.1 200 OK\r\nContent-Length: 5\r\n\r\nhello";
    assert_eq!(done(stream), ("HTTP/1.1 200 OK".to_string(), true));
    for cut in 1..stream.len() {
        assert!(incomplete(&stream[..cut]));
    }
}

#[test]
fn what_follows_a_response_does_not_change_it() {
    let stream = b"HTTP/1.1 200 OK\r\nContent-Length: 2\r\n\r\nokHTTP/1.1 500 No\r\n\r\n";
    match read(stream, stream.len()) {
        HttpStep::Done(response) => assert_eq!(response.status_line, "HTTP/1.1 200 OK"),
        _ => panic!("not complete"),
    }
}

#[test]
fn chunks_are_read_to_the_last_one() {
    let stream = b"HTTP/1.1 200 OK\r\nTransfer-Encoding: Chunked\r\n\r\n\
        5\r\nhello\r\n00a;ext=1\r\n0123456789\r\n0\r\nTrailer: x\r\nOther: y\r\n\r\n";
    assert_eq!(done(stream), ("HTTP/1.1 200 OK".to_string(), true));
    for cut in 1..stream.len() {
        assert!(incomplete(&stream[..cut]));
    }
}

#[test]
fn a_chunk_may_hold_line_ends() {
    let stream = b"HTTP/1.1 200 OK\r\ntransfer-encoding: gzip, chunked\r\n\r\n4\r\n\r\n\r\n\r\n0\r\n\r\n";
    assert_eq!(done(stream), ("HTTP/1.1 200 OK".to_string(), true));
}

#[test]
fn a_chunk_size_must_be_a_number() {
    let stream = b"HTTP/1.1 200 OK\r\nTransfer-Encoding: chunked\r\n\r\nx\"y\r\n";
    assert_eq!(failure(stream), "bad chunk size \"x\\\"y\"");
    let stream = b"HTTP/1.1 200 OK\r\nTransfer-Encoding: chunked\r\n\r\n\r\n";
    assert_eq!(failure(stream), "bad chunk size \"\"");
    assert_eq!(bad_chunk_size("\"z\""), "bad chunk size \"z\"");
}

#[test]
fn a_chunk_beyond_all_memory_never_ends() {
    let stream = b"HTTP/1.1 200 OK\r\nTransfer-Encoding: chunked\r\n\r\nffffffffffffffff\r\nabc";
    assert!(incomplete(stream));
}

#[test]
fn chunk_sizes_are_hexadecimal_in_front_of_extensions() {
    assert_eq!(parse_chunk_size("1F"), Some(31));
    assert_eq!(parse_chunk_size("  a ; name=value;x"), Some(10));
    assert_eq!(parse_chunk_size("0"), Some(0));
    assert_eq!(parse_chunk_size("+2"), Some(2));
    assert_eq!(parse_chunk_size(""), None);
    assert_eq!(parse_chunk_size(";5"), None);
    assert_eq!(parse_chunk_size("-1"), None);
    assert_eq!(parse_chunk_size("10000000000000000"), None);
}

#[test]
fn a_body_without_length_ends_with_the_connection() {
    let stream = b"HTTP/1.1 200 OK\r\nConnection: keep-alive\r\n\r\n";
    assert_eq!(done(stream), ("HTTP/1.1 200 OK".to_string(), false));
}

#[test]
fn a_closed_connection_is_no_response() {
    let reader = ResponseReader::new();
    match reader.received(b"") {
        HttpStep::Failed(e) => assert_eq!(e, "connection closed"),
        _ => panic!("no failure"),
    }
}

#[test]
fn connections_are_kept_by_version_and_by_header() {
    let keep = |head: &str| {
        let stream = format!("{}\r\nContent-Length: 0\r\n\r\n", head);
        done(stream.as_bytes()).1
    };
    assert!(keep("HTTP/1.1 200 OK"));
    assert!(!keep("HTTP/1.0 200 OK"));
    assert!(keep("HTTP/1.0 200 OK\r\nConnection: Keep-Alive"));
    assert!(!keep("HTTP/1.1 200 OK\r\nCONNECTION :  close "));
    assert!(keep("HTTP/1.1 200 OK\r\nConnection: upgrade"));
    assert!(keep("HTTP/1.1 200 OK\r\nConnection: close\r\nConnection: keep-alive"));
}

#[test]
fn the_last_header_line_of_a_name_counts() {
    let head = parse_head("HTTP/1.1 200 OK\r\nContent-Length: 5\r\nContent-Length: x\r\nno colon");
    assert_eq!(head.length, None);
    assert!(!head.chunked);
    let head = parse_head("HTTP/1.1 200 OK\r\nTransfer-Encoding: chunked\r\nTransfer-Encoding: identity");
    assert!(!head.chunked);
    let head = parse_head("HTTP/1.1 200 OK\r\ncontent-LENGTH:\t 12 \r\nX: y");
    assert_eq!(head.length, Some(12));
    assert_eq!(head.status_line, "HTTP/1.1 200 OK");
}

#[test]
fn letter_case_and_space_in_header_lines_do_not_matter() {
    let plain = parse_head("HTTP/1.0 200 OK\r\nContent-Length:7\r\nConnection:keep-alive\r\nx");
    let other = parse_head(
        "HTTP/1.0 200 OK\r\n CONTENT-length \t:  7 \r\ncOnnection :\tKeep-ALIVE\r\nyz",
    );
    for head in [plain, other] {
        assert_eq!(head.length, Some(7));
        assert!(head.keep_alive);
        assert!(!head.chunked);
    }
}

#[test]
fn an_empty_head_has_an_empty_status_line() {
    let head = parse_head("");
    assert_eq!(head.status_line, "");
    assert!(!head.keep_alive);
    assert_eq!(done(b"\r\n\r\n"), (String::new(), false));
}

#[test]
fn bytes_that_are_not_utf8_are_replaced() {
    let stream = b"HTTP/1.1 200 \xff\r\nContent-Length: 0\r\n\r\n";
    assert_eq!(done(stream), ("HTTP/1.1 200 \u{fffd}".to_string(), true));
    let stream = "HTTP/1.1 200 Schön\r\nContent-Length: 0\r\n\r\n".as_bytes();
    assert_eq!(done(stream), ("HTTP/1.1 200 Schön".to_string(), true));
}
