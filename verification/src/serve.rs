//! The built-in speed test server's protocol logic: reading request
//! heads, routing, sizing downloads and reading chunked upload bodies.
//!
//! Endpoints:
//! - `GET /ping` (alias `/empty.php`): an instant tiny 200;
//! - `GET /download` (alias `/garbage.php`): an incompressible payload;
//!   `?bytes=N` or LibreSpeed's `?ckSize=<MB>` set its size;
//! - `POST /upload` (alias `/empty.php`): the body is drained, then 200.
//!
//! The socket loop lives with the program; everything it decides is here.

use vstd::prelude::*;

use crate::network::{stream_byte, xorshift_bytes};
use crate::text::{
    after_first_word, before_char, chars_of, concat, copy_range, decimal, decimal_of,
    eq_ignore_ascii_case, equal_ignore_ascii_case, find, find_char, first_word, lines_of,
    parse_hex_u64, parse_u64, parsed_hex_u64, parsed_u64, prefix_before, slices_equal,
    split_fields, split_first_word, split_on, starts_with, string_of, text_lines, trim, trimmed,
    views,
};

verus! {

/// The default port.
pub const DEFAULT_PORT: u16 = 9516;

/// Download payload per request when no size is requested (100 MiB).
pub const DEFAULT_DOWNLOAD_BYTES: u64 = 104857600;

/// Cap on a requested download size, per request (1 GiB).
pub const MAX_DOWNLOAD_BYTES: u64 = 1073741824;

/// Upper bound on the size of a request head.
pub const MAX_HEAD_BYTES: usize = 8192;

/// Upper bound on the size of a chunk-size line of a chunked body.
pub const MAX_CHUNK_LINE_BYTES: usize = 32;

/// Write chunk for download streaming.
pub const CHUNK_BYTES: usize = 65536;

/// Seed of the download payload stream.
pub const PAYLOAD_SEED: u64 = 0x2545_f491_4f6c_dd1d;

// ── Decoding bytes ───────────────────────────────────────────────────────────

/// What `String::from_utf8_lossy` makes of `bytes`, as characters.
pub uninterp spec fn utf8_lossy(bytes: Seq<u8>) -> Seq<char>;

/// The characters of ASCII bytes, one for one.
pub open spec fn ascii_chars(bytes: Seq<u8>) -> Seq<char> {
    bytes.map_values(|b: u8| b as char)
}

/// Whether every byte of `bytes` is ASCII.
pub open spec fn is_ascii_bytes(bytes: Seq<u8>) -> bool {
    forall|i: int| 0 <= i < bytes.len() ==> #[trigger] bytes[i] < 128
}

/// `String::from_utf8_lossy(bytes)`, as characters.
///
/// The result is named [`utf8_lossy`] of the bytes. The one further fact
/// claimed is what the documentation gives for valid UTF-8, here for
/// ASCII input: the text is the bytes, one character each.
#[verifier::external_body]
fn lossy_text(bytes: &[u8]) -> (r: Vec<char>)
    ensures
        r@ == utf8_lossy(bytes@),
        is_ascii_bytes(bytes@) ==> r@ == ascii_chars(bytes@),
{
    String::from_utf8_lossy(bytes).chars().collect()
}

// ── Request heads ────────────────────────────────────────────────────────────

/// One parsed request head.
pub struct Request {
    pub method: String,
    pub path: String,
    pub query: String,
    pub content_length: u64,
    pub chunked: bool,
}

/// The request line of a head: its first line, or nothing.
pub open spec fn request_line(text: Seq<char>) -> Seq<char> {
    let lines = text_lines(text);
    if lines.len() > 0 {
        lines[0]
    } else {
        Seq::<char>::empty()
    }
}

/// The header lines of a head: every line after the first.
pub open spec fn header_lines(text: Seq<char>) -> Seq<Seq<char>> {
    let lines = text_lines(text);
    if lines.len() > 0 {
        lines.drop_first()
    } else {
        lines
    }
}

/// The method: the first word of the request line.
pub open spec fn request_method(text: Seq<char>) -> Seq<char> {
    first_word(request_line(text))
}

/// The target: the second word of the request line.
pub open spec fn request_target(text: Seq<char>) -> Seq<char> {
    first_word(after_first_word(request_line(text)))
}

/// The path of a target: what comes before its first `?`.
pub open spec fn target_path(target: Seq<char>) -> Seq<char> {
    before_char(target, '?')
}

/// The query of a target: what follows its first `?`, or nothing.
pub open spec fn target_query(target: Seq<char>) -> Seq<char> {
    let i = find_char(target, '?');
    if i < target.len() {
        target.skip(i + 1)
    } else {
        Seq::<char>::empty()
    }
}

/// The content length and chunked flag after one more header line: a
/// `Content-Length` header sets the length (0 when its value is not a
/// `u64`), a `Transfer-Encoding: chunked` header sets the flag, names
/// compared ignoring ASCII case; a line without `:` changes nothing.
pub open spec fn apply_header(state: (u64, bool), line: Seq<char>) -> (u64, bool) {
    let i = find_char(line, ':');
    if i < line.len() {
        let name = line.take(i);
        let value = trim(line.skip(i + 1));
        let length = if eq_ignore_ascii_case(name, "content-length"@) {
            match parsed_u64(value) {
                Some(n) => n,
                None => 0,
            }
        } else {
            state.0
        };
        let chunked = state.1 || (eq_ignore_ascii_case(name, "transfer-encoding"@)
            && eq_ignore_ascii_case(value, "chunked"@));
        (length, chunked)
    } else {
        state
    }
}

/// The content length and chunked flag after a run of header lines,
/// starting from length 0 and not chunked.
pub open spec fn header_state(lines: Seq<Seq<char>>) -> (u64, bool)
    decreases lines.len(),
{
    if lines.len() == 0 {
        (0, false)
    } else {
        apply_header(header_state(lines.drop_last()), lines.last())
    }
}

/// `r` is the request read from the head text `text`.
pub open spec fn is_request_of(r: Request, text: Seq<char>) -> bool {
    &&& r.method@ == request_method(text)
    &&& r.path@ == target_path(request_target(text))
    &&& r.query@ == target_query(request_target(text))
    &&& (r.content_length, r.chunked) == header_state(header_lines(text))
}

/// One header line applied to the state.
fn apply_header_line(state: (u64, bool), line: &[char]) -> (r: (u64, bool))
    ensures
        r == apply_header(state, line@),
{
    let i = find(line, ':');
    if i < line.len() {
        let name = copy_range(line, 0, i);
        let rest = copy_range(line, i + 1, line.len());
        let value = trimmed(&rest);
        let length = if equal_ignore_ascii_case(&name, &chars_of("content-length")) {
            match parse_u64(&value) {
                Some(n) => n,
                None => 0,
            }
        } else {
            state.0
        };
        let chunked = state.1 || (equal_ignore_ascii_case(&name, &chars_of("transfer-encoding"))
            && equal_ignore_ascii_case(&value, &chars_of("chunked")));
        (length, chunked)
    } else {
        state
    }
}

/// Parses a request head from its text: the method and target from the
/// request line (the target split at its first `?` into path and query),
/// then the content length and chunked flag from the header lines.
pub fn parse_request_text(text: &[char]) -> (r: Request)
    ensures
        is_request_of(r, text@),
{
    let lines = lines_of(text);
    let ghost all = views(lines@);
    let line = if lines.len() > 0 {
        copy_range(&lines[0], 0, lines[0].len())
    } else {
        Vec::new()
    };
    assert(line@ == request_line(text@)) by {
        if lines@.len() > 0 {
            assert(all[0] == lines@[0]@);
            assert(lines@[0]@.subrange(0, lines@[0]@.len() as int) =~= lines@[0]@);
        } else {
            assert(line@ =~= Seq::<char>::empty());
        }
    }
    let (method, after) = split_first_word(&line);
    let (target, _) = split_first_word(&after);
    let qi = find(&target, '?');
    let path = copy_range(&target, 0, qi);
    let query = if qi < target.len() {
        copy_range(&target, qi + 1, target.len())
    } else {
        Vec::new()
    };
    assert(query@ =~= target_query(target@));
    let ghost headers = header_lines(text@);
    let mut state: (u64, bool) = (0, false);
    let mut i: usize = 1;
    proof {
        if all.len() > 0 {
            assert(headers.take(0) =~= Seq::<Seq<char>>::empty());
        }
    }
    while i < lines.len()
        invariant
            all == views(lines@),
            all == text_lines(text@),
            headers == header_lines(text@),
            1 <= i,
            i <= lines@.len() || lines@.len() == 0,
            lines@.len() > 0 ==> state == header_state(headers.take(i - 1)),
            lines@.len() == 0 ==> state == (0u64, false),
        decreases lines.len() - i,
    {
        let ghost before = state;
        state = apply_header_line(state, &lines[i]);
        proof {
            assert(headers[i - 1] == lines@[i as int]@);
            assert(headers.take(i as int).drop_last() =~= headers.take(i - 1));
        }
        i += 1;
    }
    proof {
        if all.len() > 0 {
            assert(headers.take(i - 1) =~= headers);
        } else {
            assert(headers =~= Seq::<Seq<char>>::empty());
        }
    }
    Request {
        method: string_of(&method),
        path: string_of(&path),
        query: string_of(&query),
        content_length: state.0,
        chunked: state.1,
    }
}

/// Parses a request head from its bytes (decoded as UTF-8, invalid
/// sequences replaced).
pub fn parse_request_head(head: &[u8]) -> (r: Request)
    ensures
        is_request_of(r, utf8_lossy(head@)),
        is_ascii_bytes(head@) ==> is_request_of(r, ascii_chars(head@)),
{
    let text = lossy_text(head);
    parse_request_text(&text)
}

// ── Routing and replies ──────────────────────────────────────────────────────

/// What the server does with a request.
#[derive(Clone, Copy, Debug, PartialEq, Eq, Structural)]
pub enum Route {
    /// An instant tiny 200.
    Pong,
    /// A streamed incompressible payload.
    Download,
    /// The body is drained, then a tiny 200.
    Upload,
    /// 404.
    NotFound,
}

/// The route of a method and path: `GET /ping`, `GET /empty.php` and any
/// `HEAD` pong; `GET /download` and `GET /garbage.php` download;
/// `POST /upload` and `POST /empty.php` upload; anything else is not
/// found.
pub open spec fn route_of(method: Seq<char>, path: Seq<char>) -> Route {
    if (method == "GET"@ && (path == "/ping"@ || path == "/empty.php"@)) || method == "HEAD"@ {
        Route::Pong
    } else if method == "GET"@ && (path == "/download"@ || path == "/garbage.php"@) {
        Route::Download
    } else if method == "POST"@ && (path == "/upload"@ || path == "/empty.php"@) {
        Route::Upload
    } else {
        Route::NotFound
    }
}

fn is_text(s: &[char], t: &'static str) -> (r: bool)
    ensures
        r == (s@ == t@),
{
    slices_equal(s, &chars_of(t))
}

impl Request {
    /// The route this request takes.
    pub fn route(&self) -> (r: Route)
        ensures
            r == route_of(self.method@, self.path@),
    {
        let m = chars_of(self.method.as_str());
        let p = chars_of(self.path.as_str());
        if (is_text(&m, "GET") && (is_text(&p, "/ping") || is_text(&p, "/empty.php"))) || is_text(
            &m,
            "HEAD",
        ) {
            Route::Pong
        } else if is_text(&m, "GET") && (is_text(&p, "/download") || is_text(&p, "/garbage.php")) {
            Route::Download
        } else if is_text(&m, "POST") && (is_text(&p, "/upload") || is_text(&p, "/empty.php")) {
            Route::Upload
        } else {
            Route::NotFound
        }
    }
}

/// The reply to a tiny request (pong or drained upload).
pub open spec fn ok_reply() -> Seq<char> {
    "HTTP/1.1 200 OK\r\nContent-Length: 2\r\n\r\nok"@
}

/// The reply to an unknown request.
pub open spec fn not_found_reply() -> Seq<char> {
    "HTTP/1.1 404 Not Found\r\nContent-Length: 0\r\n\r\n"@
}

/// The head of a download reply announcing `total` bytes.
pub open spec fn download_reply_head(total: nat) -> Seq<char> {
    "HTTP/1.1 200 OK\r\nContent-Type: application/octet-stream\r\nContent-Length: "@ + decimal(
        total,
    ) + "\r\n\r\n"@
}

/// What the server writes first for a route; `total` is the download
/// size and matters only for a download.
pub open spec fn reply_of(route: Route, total: nat) -> Seq<char> {
    match route {
        Route::Pong => ok_reply(),
        Route::Upload => ok_reply(),
        Route::Download => download_reply_head(total),
        Route::NotFound => not_found_reply(),
    }
}

/// The reply (for a download, its head) that the server writes for a
/// route.
pub fn reply_head(route: Route, total: u64) -> (r: String)
    ensures
        r@ == reply_of(route, total as nat),
{
    match route {
        Route::Pong | Route::Upload => string_of(
            &chars_of("HTTP/1.1 200 OK\r\nContent-Length: 2\r\n\r\nok"),
        ),
        Route::NotFound => string_of(
            &chars_of("HTTP/1.1 404 Not Found\r\nContent-Length: 0\r\n\r\n"),
        ),
        Route::Download => {
            let mut t = concat(
                &chars_of(
                    "HTTP/1.1 200 OK\r\nContent-Type: application/octet-stream\r\nContent-Length: ",
                ),
                &decimal_of(total),
            );
            let end = chars_of("\r\n\r\n");
            t = concat(&t, &end);
            string_of(&t)
        },
    }
}

/// How many payload bytes the next write of a download sends.
pub fn next_write(remaining: u64, chunk: usize) -> (r: usize)
    ensures
        r as int == if remaining < chunk { remaining as int } else { chunk as int },
{
    if remaining < chunk as u64 {
        remaining as usize
    } else {
        chunk
    }
}

// ── Reading heads and chunked bodies ─────────────────────────────────────────

/// Where reading a delimited piece of input stands.
#[derive(Clone, Copy, Debug, PartialEq, Eq, Structural)]
pub enum ReadProgress {
    /// The terminator has arrived.
    Complete,
    /// More than the limit has arrived without the terminator.
    Overflow,
    /// Keep reading.
    Incomplete,
}

/// The progress of reading `buf` up to the terminator `end` with at most
/// `limit` bytes before it.
pub open spec fn progress_of(buf: Seq<u8>, end: Seq<u8>, limit: nat) -> ReadProgress {
    if end.is_suffix_of(buf) {
        ReadProgress::Complete
    } else if buf.len() > limit {
        ReadProgress::Overflow
    } else {
        ReadProgress::Incomplete
    }
}

/// The end of a request head: an empty line.
pub open spec fn head_end() -> Seq<u8> {
    seq![13u8, 10u8, 13u8, 10u8]
}

/// The end of a line: CRLF.
pub open spec fn line_end() -> Seq<u8> {
    seq![13u8, 10u8]
}

fn bytes_end_with(buf: &[u8], end: &[u8]) -> (r: bool)
    ensures
        r == end@.is_suffix_of(buf@),
{
    if end.len() > buf.len() {
        return false;
    }
    let off = buf.len() - end.len();
    let mut i: usize = 0;
    while i < end.len()
        invariant
            end@.len() <= buf@.len(),
            buf@.len() <= usize::MAX,
            off == buf@.len() - end@.len(),
            i <= end@.len(),
            forall|k: int| 0 <= k < i ==> buf@[off + k] == end@[k],
        decreases end.len() - i,
    {
        if buf[off + i] != end[i] {
            assert(buf@.subrange(off as int, buf@.len() as int)[i as int] != end@[i as int]);
            return false;
        }
        i += 1;
    }
    assert(end@ =~= buf@.subrange(off as int, buf@.len() as int));
    true
}

/// Where reading a request head stands: complete at the first empty
/// line, refused once more than [`MAX_HEAD_BYTES`] arrived without one.
pub fn head_progress(head: &[u8]) -> (r: ReadProgress)
    ensures
        r == progress_of(head@, head_end(), MAX_HEAD_BYTES as nat),
{
    let end: [u8; 4] = [13u8, 10u8, 13u8, 10u8];
    assert(end@ =~= head_end());
    if bytes_end_with(head, &end) {
        ReadProgress::Complete
    } else if head.len() > MAX_HEAD_BYTES {
        ReadProgress::Overflow
    } else {
        ReadProgress::Incomplete
    }
}

/// Where reading a chunk-size line stands: complete at CRLF, refused once
/// more than [`MAX_CHUNK_LINE_BYTES`] arrived without one.
pub fn chunk_line_progress(line: &[u8]) -> (r: ReadProgress)
    ensures
        r == progress_of(line@, line_end(), MAX_CHUNK_LINE_BYTES as nat),
{
    let end: [u8; 2] = [13u8, 10u8];
    assert(end@ =~= line_end());
    if bytes_end_with(line, &end) {
        ReadProgress::Complete
    } else if line.len() > MAX_CHUNK_LINE_BYTES {
        ReadProgress::Overflow
    } else {
        ReadProgress::Incomplete
    }
}

/// The size a chunk-size line announces: the hexadecimal number before
/// any `;` extension, white space around the line ignored.
pub open spec fn chunk_size_of(text: Seq<char>) -> Option<u64> {
    parsed_hex_u64(before_char(trim(text), ';'))
}

/// The size announced by a chunk-size line's text; `None` when it is not
/// a hexadecimal `u64`.
pub fn chunk_size_text(text: &[char]) -> (r: Option<u64>)
    ensures
        r == chunk_size_of(text@),
{
    let t = trimmed(text);
    let size = prefix_before(&t, ';');
    parse_hex_u64(&size)
}

/// The size announced by a chunk-size line (decoded as UTF-8, invalid
/// sequences replaced); `None` when it is not a hexadecimal `u64`.
pub fn chunk_size(line: &[u8]) -> (r: Option<u64>)
    ensures
        r == chunk_size_of(utf8_lossy(line@)),
        is_ascii_bytes(line@) ==> r == chunk_size_of(ascii_chars(line@)),
{
    let text = lossy_text(line);
    chunk_size_text(&text)
}

// ── Download sizes ───────────────────────────────────────────────────────────

/// `n` clamped to `1..=MAX_DOWNLOAD_BYTES`.
pub open spec fn clamp_download(n: int) -> int {
    if n < 1 {
        1
    } else if n > MAX_DOWNLOAD_BYTES {
        MAX_DOWNLOAD_BYTES as int
    } else {
        n
    }
}

/// The size one query pair asks for, before clamping: `bytes=N` gives
/// `N`, `ckSize=M` gives `M` MiB; any other pair, or a value that is not
/// a `u64`, asks for nothing.
pub open spec fn pair_request(pair: Seq<char>) -> Option<int> {
    let b = "bytes="@;
    let c = "ckSize="@;
    if b.is_prefix_of(pair) && parsed_u64(pair.skip(b.len() as int)) is Some {
        Some(parsed_u64(pair.skip(b.len() as int))->0 as int)
    } else if c.is_prefix_of(pair) && parsed_u64(pair.skip(c.len() as int)) is Some {
        Some(parsed_u64(pair.skip(c.len() as int))->0 * 1048576)
    } else {
        None
    }
}

/// The size the first pair that asks for one asks for.
pub open spec fn first_request(pairs: Seq<Seq<char>>) -> Option<int>
    decreases pairs.len(),
{
    if pairs.len() == 0 {
        None
    } else if pair_request(pairs[0]) is Some {
        pair_request(pairs[0])
    } else {
        first_request(pairs.drop_first())
    }
}

/// The unclamped size a query string asks for, if any.
pub open spec fn query_request(query: Seq<char>) -> Option<int> {
    first_request(split_on(query, '&'))
}

/// The download size served for a query string. A `ckSize` too large to
/// count in bytes is clamped like any other oversized request.
pub open spec fn download_size(query: Seq<char>) -> int {
    match query_request(query) {
        Some(n) => clamp_download(n),
        None => DEFAULT_DOWNLOAD_BYTES as int,
    }
}

fn clamp_size(n: u64) -> (r: u64)
    ensures
        r == clamp_download(n as int),
{
    if n < 1 {
        1
    } else if n > MAX_DOWNLOAD_BYTES {
        MAX_DOWNLOAD_BYTES
    } else {
        n
    }
}

/// The clamped size one query pair asks for, if it asks for one.
fn pair_size(pair: &[char]) -> (r: Option<u64>)
    ensures
        match r {
            None => pair_request(pair@) is None,
            Some(n) => pair_request(pair@) matches Some(m) && n == clamp_download(m),
        },
{
    let b = chars_of("bytes=");
    let c = chars_of("ckSize=");
    proof {
        reveal_strlit("bytes=");
        reveal_strlit("ckSize=");
    }
    if starts_with(pair, &b) {
        let rest = copy_range(pair, b.len(), pair.len());
        assert(rest@ == pair@.skip(b@.len() as int));
        if let Some(n) = parse_u64(&rest) {
            return Some(clamp_size(n));
        }
    }
    if starts_with(pair, &c) {
        let rest = copy_range(pair, c.len(), pair.len());
        assert(rest@ == pair@.skip(c@.len() as int));
        if let Some(m) = parse_u64(&rest) {
            return match m.checked_mul(1048576) {
                Some(n) => Some(clamp_size(n)),
                None => Some(MAX_DOWNLOAD_BYTES),
            };
        }
    }
    None
}

/// Payload size from the query string: `bytes=N` (netspd) or
/// `ckSize=<MB>` (LibreSpeed), clamped to `1..=1 GiB` (however large the
/// number); the first pair that asks for a size decides, and without one
/// the size is 100 MiB.
pub fn requested_bytes(query: &str) -> (r: u64)
    ensures
        r == download_size(query@),
{
    let q = chars_of(query);
    let pairs = split_fields(&q, '&');
    let ghost all = views(pairs@);
    let mut i: usize = 0;
    assert(all.skip(0) =~= all);
    while i < pairs.len()
        invariant
            all == views(pairs@),
            all == split_on(query@, '&'),
            i <= pairs@.len(),
            first_request(all) == first_request(all.skip(i as int)),
        decreases pairs.len() - i,
    {
        let ghost rest = all.skip(i as int);
        assert(rest[0] == pairs@[i as int]@);
        assert(rest.drop_first() =~= all.skip(i + 1));
        if let Some(n) = pair_size(&pairs[i]) {
            return n;
        }
        i += 1;
    }
    assert(all.skip(i as int) =~= Seq::<Seq<char>>::empty());
    DEFAULT_DOWNLOAD_BYTES
}

/// Every download is between one byte and the cap, whatever the query.
pub proof fn law_download_size_in_range(query: Seq<char>)
    ensures
        1 <= download_size(query) <= MAX_DOWNLOAD_BYTES,
{
}

/// A reusable incompressible chunk, so nothing on the path can inflate
/// the measurement by compressing zeros.
pub fn incompressible_chunk() -> (r: Vec<u8>)
    ensures
        r@.len() == CHUNK_BYTES,
        forall|i: int| 0 <= i < CHUNK_BYTES ==> #[trigger] r@[i] == stream_byte(PAYLOAD_SEED, i as nat),
{
    xorshift_bytes(PAYLOAD_SEED, CHUNK_BYTES)
}

} // verus!
