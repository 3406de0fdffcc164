use netspd::serve::{
    chunk_line_progress, chunk_size, chunk_size_text, head_progress,
    incompressible_chunk, next_write, parse_request_head, parse_request_text, reply_head,
    requested_bytes, ReadProgress, Route, CHUNK_BYTES, DEFAULT_DOWNLOAD_BYTES, DEFAULT_PORT,
    MAX_DOWNLOAD_BYTES, PAYLOAD_SEED,
};

#[test]
fn default_port_is_9516() {
    assert_eq!(DEFAULT_PORT, 9516);
}

#[test]
fn requested_bytes_examples() {
    assert_eq!(requested_bytes(""), DEFAULT_DOWNLOAD_BYTES);
    assert_eq!(requested_bytes("bytes=1000"), 1000);
    assert_eq!(requested_bytes("x=1&bytes=5"), 5);
    assert_eq!(requested_bytes("bytes=0"), 1);
    assert_eq!(requested_bytes("bytes=99999999999"), MAX_DOWNLOAD_BYTES);
    assert_eq!(requested_bytes("ckSize=2"), 2 * 1024 * 1024);
    assert_eq!(requested_bytes("ckSize=100"), 100 * 1024 * 1024);
    assert_eq!(requested_bytes("ckSize=5000"), MAX_DOWNLOAD_BYTES);
    assert_eq!(requested_bytes("ckSize=0"), 1);
    assert_eq!(requested_bytes("bytes=abc&ckSize=1"), 1024 * 1024);
    assert_eq!(requested_bytes("bytes=+7"), 7);
    assert_eq!(requested_bytes("bytes=7&ckSize=1"), 7);
    assert_eq!(requested_bytes("BYTES=7"), DEFAULT_DOWNLOAD_BYTES);
    assert_eq!(requested_bytes("bytes=-1"), DEFAULT_DOWNLOAD_BYTES);
}

#[test]
fn huge_cksize_is_clamped() {
    assert_eq!(requested_bytes("ckSize=18446744073709551615"), MAX_DOWNLOAD_BYTES);
    assert_eq!(requested_bytes("ckSize=17592186044416"), MAX_DOWNLOAD_BYTES);
    assert_eq!(requested_bytes("ckSize=17592186044415"), MAX_DOWNLOAD_BYTES);
    assert_eq!(requested_bytes("bytes=3&ckSize=18446744073709551615"), 3);
    assert_eq!(requested_bytes("ckSize=18446744073709551616&bytes=3"), 3);
}

#[test]
fn download_size_is_always_in_range() {
    for q in ["", "bytes=0", "bytes=18446744073709551615", "ckSize=0", "ckSize=1", "a&b&c"] {
        let n = requested_bytes(q);
        assert!((1..=MAX_DOWNLOAD_BYTES).contains(&n));
    }
}

#[test]
fn parses_a_download_request() {
    let head = b"GET /download?bytes=1000 HTTP/1.1\r\nHost: x\r\n\r\n";
    let r = parse_request_head(head);
    assert_eq!(r.method, "GET");
    assert_eq!(r.path, "/download");
    assert_eq!(r.query, "bytes=1000");
    assert_eq!(r.content_length, 0);
    assert!(!r.chunked);
    assert_eq!(r.route(), Route::Download);
}

#[test]
fn parses_upload_headers() {
    let head = b"POST /upload HTTP/1.1\r\ncontent-LENGTH:  42 \r\nTransfer-Encoding: Chunked\r\n\r\n";
    let r = parse_request_head(head);
    assert_eq!(r.method, "POST");
    assert_eq!(r.path, "/upload");
    assert_eq!(r.query, "");
    assert_eq!(r.content_length, 42);
    assert!(r.chunked);
    assert_eq!(r.route(), Route::Upload);
}

#[test]
fn bad_content_length_is_zero() {
    let r = parse_request_head(b"POST /upload HTTP/1.1\r\nContent-Length: 12x\r\n\r\n");
    assert_eq!(r.content_length, 0);
    let r = parse_request_head(b"POST /upload HTTP/1.1\r\nContent-Length: 5\r\nContent-Length: nope\r\n\r\n");
    assert_eq!(r.content_length, 0);
    let r = parse_request_head(b"POST /upload HTTP/1.1\r\nContent-Length: 5\r\nX: y\r\n\r\n");
    assert_eq!(r.content_length, 5);
}

#[test]
fn empty_head_parses_to_empty_request() {
    let r = parse_request_head(b"");
    assert_eq!(r.method, "");
    assert_eq!(r.path, "");
    assert_eq!(r.route(), Route::NotFound);
}

#[test]
fn parse_request_text_matches_head() {
    let text: Vec<char> = "GET /garbage.php?ckSize=1&x=2 HTTP/1.1\r\n\r\n".chars().collect();
    let r = parse_request_text(&text);
    assert_eq!(r.path, "/garbage.php");
    assert_eq!(r.query, "ckSize=1&x=2");
    assert_eq!(r.route(), Route::Download);
}

#[test]
fn routes_follow_the_endpoint_table() {
    let route = |line: &str| parse_request_head(format!("{line} HTTP/1.1\r\n\r\n").as_bytes()).route();
    assert_eq!(route("GET /ping"), Route::Pong);
    assert_eq!(route("GET /empty.php"), Route::Pong);
    assert_eq!(route("HEAD /anything"), Route::Pong);
    assert_eq!(route("GET /download"), Route::Download);
    assert_eq!(route("GET /garbage.php"), Route::Download);
    assert_eq!(route("POST /upload"), Route::Upload);
    assert_eq!(route("POST /empty.php"), Route::Upload);
    assert_eq!(route("POST /ping"), Route::NotFound);
    assert_eq!(route("get /ping"), Route::NotFound);
    assert_eq!(route("PUT /upload"), Route::NotFound);
}

#[test]
fn reply_heads() {
    assert_eq!(reply_head(Route::Pong, 0), "HTTP/1.1 200 OK\r\nContent-Length: 2\r\n\r\nok");
    assert_eq!(reply_head(Route::Upload, 9), "HTTP/1.1 200 OK\r\nContent-Length: 2\r\n\r\nok");
    assert_eq!(
        reply_head(Route::NotFound, 0),
        "HTTP/1.1 404 Not Found\r\nContent-Length: 0\r\n\r\n"
    );
    assert_eq!(
        reply_head(Route::Download, 1000),
        "HTTP/1.1 200 OK\r\nContent-Type: application/octet-stream\r\nContent-Length: 1000\r\n\r\n"
    );
}

#[test]
fn next_write_takes_at_most_a_chunk() {
    assert_eq!(next_write(10, 65536), 10);
    assert_eq!(next_write(1 << 40, 65536), 65536);
    assert_eq!(next_write(65536, 65536), 65536);
    assert_eq!(next_write(0, 65536), 0);
}

#[test]
fn head_progress_examples() {
    assert_eq!(head_progress(b"GET / HTTP/1.1\r\n"), ReadProgress::Incomplete);
    assert_eq!(head_progress(b"GET / HTTP/1.1\r\n\r\n"), ReadProgress::Complete);
    assert_eq!(head_progress(&vec![b'a'; 8193]), ReadProgress::Overflow);
    assert_eq!(head_progress(&vec![b'a'; 8192]), ReadProgress::Incomplete);
    assert_eq!(head_progress(b""), ReadProgress::Incomplete);
}

#[test]
fn chunk_lines() {
    assert_eq!(chunk_line_progress(b"1a\r"), ReadProgress::Incomplete);
    assert_eq!(chunk_line_progress(b"1a\r\n"), ReadProgress::Complete);
    assert_eq!(chunk_line_progress(&vec![b'0'; 33]), ReadProgress::Overflow);
    assert_eq!(chunk_size(b"1a\r\n"), Some(26));
    assert_eq!(chunk_size(b"FF;ext=1\r\n"), Some(255));
    assert_eq!(chunk_size(b"0\r\n"), Some(0));
    assert_eq!(chunk_size(b"zz\r\n"), None);
    assert_eq!(chunk_size(b"\r\n"), None);
    assert_eq!(chunk_size(b"+10\r\n"), Some(16));
    assert_eq!(chunk_size(b"10000000000000000\r\n"), None);
    let text: Vec<char> = " ffffffffffffffff ".chars().collect();
    assert_eq!(chunk_size_text(&text), Some(u64::MAX));
}

#[test]
fn incompressible_chunk_is_the_seeded_stream() {
    let chunk = incompressible_chunk();
    assert_eq!(chunk.len(), CHUNK_BYTES);
    let mut state = PAYLOAD_SEED;
    for byte in chunk.iter().take(1000) {
        state ^= state << 13;
        state ^= state >> 7;
        state ^= state << 17;
        assert_eq!(*byte, (state & 0xff) as u8);
    }
    let zeros = chunk.iter().filter(|b| **b == 0).count();
    assert!(zeros < CHUNK_BYTES / 64);
}

#[test]
fn invalid_utf8_is_replaced() {
    let r = parse_request_head(b"GET /p\xff HTTP/1.1\r\nContent-Length: 3\r\n\r\n");
    assert_eq!(r.path, "/p\u{fffd}");
    assert_eq!(r.content_length, 3);
    assert_eq!(chunk_size(b"1\xff\r\n"), None);
}
