//! URL rules and payloads of the measurement phases: cache-busting of
//! latency requests, the host an ICMP probe targets, the client-info
//! endpoint, and the incompressible upload payload.

use vstd::multiset::Multiset;
use vstd::prelude::*;

use crate::errors::EngineError;
use crate::models::Server;
use crate::text::{
    all_digits, before_char, chars_of, concat, contains_char, copy_range, decimal, decimal_of,
    find_any, find_either, is_digit, prefix_before, rfind, rfind_char, starts_with, string_of,
    trim, trimmed,
};

verus! {

/// `url` with a query parameter `key=n` appended, as a new query string
/// or after the existing one.
pub open spec fn with_param(url: Seq<char>, key: Seq<char>, n: nat) -> Seq<char> {
    let separator = if url.contains('?') {
        '&'
    } else {
        '?'
    };
    url.push(separator) + key + "="@ + decimal(n)
}

fn append_param(url: &str, key: &str, n: u64) -> (r: String)
    ensures
        r@ == with_param(url@, key@, n as nat),
{
    let u = chars_of(url);
    let separator = if contains_char(&u, '?') {
        '&'
    } else {
        '?'
    };
    let mut t = copy_range(&u, 0, u.len());
    assert(u@.subrange(0, u@.len() as int) =~= u@);
    t.push(separator);
    let t = concat(&concat(&concat(&t, &chars_of(key)), &chars_of("=")), &decimal_of(n));
    string_of(&t)
}

/// Appends a cache-busting query parameter so intermediaries cannot serve
/// cached responses to latency samples.
pub fn cache_busted(url: &str, sequence: u32) -> (r: String)
    ensures
        r@ == with_param(url@, "r"@, sequence as nat),
{
    append_param(url, "r", sequence as u64)
}

/// The URL of one latency sample taken while the link is saturated.
pub fn loaded_latency_url(url: &str, sequence: u32) -> (r: String)
    ensures
        r@ == with_param(url@, "bloat"@, sequence as nat),
{
    append_param(url, "bloat", sequence as u64)
}

/// The host of an HTTP(S) URL, for ICMP probing: the authority after the
/// scheme up to the first `/` or `?`, without a numeric port. URLs with
/// another scheme, or with an empty host, have none.
pub open spec fn url_host(url: Seq<char>) -> Option<Seq<char>> {
    let https = "https://"@.is_prefix_of(url);
    let http = "http://"@.is_prefix_of(url);
    if !https && !http {
        None
    } else {
        let rest = if https {
            url.skip(8)
        } else {
            url.skip(7)
        };
        let host_port = rest.take(find_either(rest, '/', '?'));
        let colon = rfind_char(host_port, ':');
        let host = if colon >= 0 && all_digits(host_port.skip(colon + 1)) {
            host_port.take(colon)
        } else {
            host_port
        };
        if host.len() == 0 {
            None
        } else {
            Some(host)
        }
    }
}

/// Extracts the host from an HTTP(S) URL, e.g.
/// `https://host.example.com/backend/empty.php` → `host.example.com`.
///
/// A suffix after the last `:` is a port only when it is numeric; IPv6
/// literals contain colons too.
pub fn host_of_url(url: &str) -> (r: Option<String>)
    ensures
        match r {
            Some(h) => url_host(url@) == Some(h@),
            None => url_host(url@) is None,
        },
{
    proof {
        reveal_strlit("https://");
        reveal_strlit("http://");
    }
    let u = chars_of(url);
    let rest = if starts_with(&u, &chars_of("https://")) {
        copy_range(&u, 8, u.len())
    } else if starts_with(&u, &chars_of("http://")) {
        copy_range(&u, 7, u.len())
    } else {
        return None;
    };
    let end = find_any(&rest, '/', '?');
    let host_port = copy_range(&rest, 0, end);
    let host = match rfind(&host_port, ':') {
        Some(colon) => {
            let port = copy_range(&host_port, colon + 1, host_port.len());
            let mut numeric = true;
            let mut i: usize = 0;
            while i < port.len()
                invariant
                    i <= port@.len(),
                    numeric == (forall|k: int| 0 <= k < i ==> is_digit(#[trigger] port@[k])),
                decreases port.len() - i,
            {
                if !('0' <= port[i] && port[i] <= '9') {
                    numeric = false;
                }
                i += 1;
            }
            assert(port@ =~= host_port@.skip(colon + 1));
            if numeric {
                copy_range(&host_port, 0, colon)
            } else {
                host_port
            }
        },
        None => host_port,
    };
    if host.len() == 0 {
        None
    } else {
        Some(string_of(&host))
    }
}

/// The `getIP` URL beside a ping URL: the directory of the ping URL
/// (without its query) followed by `/getIP.php?isp=true`.
pub open spec fn info_url_of(ping_url: Seq<char>) -> Seq<char> {
    let path = before_char(ping_url, '?');
    let slash = rfind_char(path, '/');
    let base = if slash >= 0 {
        path.take(slash)
    } else {
        Seq::<char>::empty()
    };
    base + "/getIP.php?isp=true"@
}

/// Derives the `getIP` URL from a server's ping URL (both live in the
/// same backend directory on LibreSpeed-compatible servers).
pub fn info_url(ping_url: &str) -> (r: String)
    ensures
        r@ == info_url_of(ping_url@),
{
    let u = chars_of(ping_url);
    let path = prefix_before(&u, '?');
    let base = match rfind(&path, '/') {
        Some(slash) => copy_range(&path, 0, slash),
        None => Vec::new(),
    };
    let t = concat(&base, &chars_of("/getIP.php?isp=true"));
    string_of(&t)
}

/// Longest client-info text shown, in characters.
pub const INFO_MAX_CHARS: usize = 64;

/// The number of bytes `c` takes in UTF-8.
pub open spec fn char_utf8_len(c: char) -> nat {
    let u = c as u32;
    if u < 0x80 {
        1
    } else if u < 0x800 {
        2
    } else if u < 0x10000 {
        3
    } else {
        4
    }
}

/// The number of bytes `s` takes in UTF-8 (`str::len`).
pub open spec fn utf8_len(s: Seq<char>) -> nat
    decreases s.len(),
{
    if s.len() == 0 {
        0
    } else {
        utf8_len(s.drop_last()) + char_utf8_len(s.last())
    }
}

/// The client-info line shown for a `getIP` reply: the reply's
/// `processedString` when it has one, else the raw body, trimmed; nothing
/// when that is empty or longer than 256 bytes, else its first 64
/// characters.
pub open spec fn client_info_of(body: Seq<char>, processed: Option<Seq<char>>) -> Option<
    Seq<char>,
> {
    let text = match processed {
        Some(p) => p,
        None => body,
    };
    let cleaned = trim(text);
    if cleaned.len() == 0 || utf8_len(cleaned) > 4 * INFO_MAX_CHARS {
        None
    } else if cleaned.len() > INFO_MAX_CHARS {
        Some(cleaned.take(INFO_MAX_CHARS as int))
    } else {
        Some(cleaned)
    }
}

fn char_bytes(c: char) -> (r: u64)
    ensures
        r == char_utf8_len(c),
{
    let u = c as u32;
    if u < 0x80 {
        1
    } else if u < 0x800 {
        2
    } else if u < 0x10000 {
        3
    } else {
        4
    }
}

/// The client-info line to show for a `getIP` reply (`processed` is the
/// reply's `processedString`, when it parsed as one); `None` when there
/// is nothing sensible to show.
pub fn client_info_text(body: &str, processed: Option<&str>) -> (r: Option<String>)
    ensures
        r matches Some(t) ==> client_info_of(body@, match processed {
            Some(p) => Some(p@),
            None => None,
        }) == Some(t@),
        r is None ==> client_info_of(body@, match processed {
            Some(p) => Some(p@),
            None => None,
        }) is None,
{
    let text = match processed {
        Some(p) => chars_of(p),
        None => chars_of(body),
    };
    let cleaned = trimmed(&text);
    if cleaned.len() == 0 {
        return None;
    }
    let limit: u64 = 4 * INFO_MAX_CHARS as u64;
    let mut bytes: u64 = 0;
    let mut i: usize = 0;
    while i < cleaned.len()
        invariant
            i <= cleaned@.len(),
            bytes == utf8_len(cleaned@.take(i as int)),
            bytes <= limit,
            limit == 4 * INFO_MAX_CHARS,
            cleaned@ == trim(text@),
            cleaned@.len() > 0,
            text@ == match processed {
                Some(p) => p@,
                None => body@,
            },
        decreases cleaned.len() - i,
    {
        assert(cleaned@.take(i + 1).drop_last() =~= cleaned@.take(i as int));
        bytes = bytes + char_bytes(cleaned[i]);
        assert(cleaned@.take(i + 1).last() == cleaned@[i as int]);
        assert(bytes == utf8_len(cleaned@.take(i + 1)));
        i += 1;
        if bytes > limit {
            proof {
                lemma_utf8_len_grows(cleaned@, i as int, cleaned@.len() as int);
                assert(cleaned@.take(cleaned@.len() as int) =~= cleaned@);
            }
            return None;
        }
    }
    assert(cleaned@.take(cleaned@.len() as int) =~= cleaned@);
    if cleaned.len() > INFO_MAX_CHARS {
        Some(string_of(&copy_range(&cleaned, 0, INFO_MAX_CHARS)))
    } else {
        Some(string_of(&cleaned))
    }
}

proof fn lemma_utf8_len_grows(s: Seq<char>, i: int, j: int)
    requires
        0 <= i <= j <= s.len(),
    ensures
        utf8_len(s.take(i)) <= utf8_len(s.take(j)),
    decreases j - i,
{
    if i < j {
        lemma_utf8_len_grows(s, i, j - 1);
        assert(s.take(j).drop_last() =~= s.take(j - 1));
    }
}

// ── Reachable servers, nearest first ─────────────────────────────────────────

/// Probe results are in order of measured latency, nearest first.
pub open spec fn nearest_first_order(probed: Seq<(u64, Server)>) -> bool {
    forall|i: int, j: int| 0 <= i < j < probed.len() ==> #[trigger] probed[i].0 <= #[trigger] probed[j].0
}

/// The reachable servers, each with its probe latency, sorted by latency
/// (nearest first). The order among equal latencies is not fixed: the
/// probes complete in no fixed order either.
pub fn nearest_first(probed: Vec<(u64, Server)>) -> (r: Vec<(u64, Server)>)
    ensures
        nearest_first_order(r@),
        r@.to_multiset() == probed@.to_multiset(),
{
    broadcast use vstd::seq_lib::group_to_multiset_ensures;

    let mut rest = probed;
    let mut out: Vec<(u64, Server)> = Vec::new();
    let ghost all = rest@.to_multiset();
    assert(out@.to_multiset() =~= Multiset::<(u64, Server)>::empty());
    while rest.len() > 0
        invariant
            nearest_first_order(out@),
            out@.to_multiset().add(rest@.to_multiset()) == all,
        decreases rest@.len(),
    {
        let ghost before = rest@;
        let item = match rest.pop() {
            Some(item) => item,
            None => {
                return out;
            },
        };
        proof {
            assert(before == rest@.push(item)) by {
                assert(rest@ =~= before.subrange(0, before.len() - 1));
            }
        }
        let key = item.0;
        let mut j: usize = 0;
        while j < out.len() && out[j].0 <= key
            invariant
                j <= out@.len(),
                forall|k: int| 0 <= k < j ==> out@[k].0 <= key,
            decreases out.len() - j,
        {
            j += 1;
        }
        let ghost prev = out@;
        out.insert(j, item);
        proof {
            assert(out@ == prev.insert(j as int, item));
            assert forall|a: int, b: int| 0 <= a < b < out@.len() implies #[trigger] out@[a].0
                <= #[trigger] out@[b].0 by {
                if b < j {
                    assert(out@[a] == prev[a] && out@[b] == prev[b]);
                } else if b == j {
                    assert(out@[a] == prev[a]);
                } else if a == j {
                    assert(out@[b] == prev[b - 1]);
                    assert(j < prev.len() ==> prev[j as int].0 > key);
                    assert(prev[j as int].0 <= prev[b - 1].0 || b - 1 == j);
                } else if a < j {
                    assert(out@[a] == prev[a] && out@[b] == prev[b - 1]);
                } else {
                    assert(out@[a] == prev[a - 1] && out@[b] == prev[b - 1]);
                }
            }
            vstd::seq_lib::to_multiset_insert(prev, j as int, item);
            vstd::seq_lib::to_multiset_build(rest@, item);
            assert(out@.to_multiset() == prev.to_multiset().insert(item));
            assert(before.to_multiset() == rest@.to_multiset().insert(item));
            assert(out@.to_multiset().add(rest@.to_multiset()) =~= prev.to_multiset().add(
                before.to_multiset(),
            ));
        }
    }
    out
}

/// Discovery's verdict on a server list: an empty list (nothing offered,
/// or nothing reachable) is [`EngineError::NoServers`].
pub fn require_servers(servers: Vec<Server>) -> (r: Result<Vec<Server>, EngineError>)
    ensures
        match r {
            Ok(kept) => servers@.len() > 0 && kept == servers,
            Err(e) => servers@.len() == 0 && e == EngineError::NoServers,
        },
{
    if servers.len() == 0 {
        Err(EngineError::NoServers)
    } else {
        Ok(servers)
    }
}

// ── Transfer phases ──────────────────────────────────────────────────────────

/// Size of the upload warm-up body, which opens every connection before
/// the full bodies follow.
pub const WARMUP_BYTES: usize = 131072;

/// The smallest full upload body.
pub const MIN_UPLOAD_BYTES: usize = 65536;

/// How many connections a transfer phase opens: the configured count, at
/// least one.
pub fn worker_count(connections: usize) -> (r: usize)
    ensures
        r == if connections == 0 {
            1
        } else {
            connections
        },
{
    if connections == 0 {
        1
    } else {
        connections
    }
}

/// The sizes of the full upload body (the configured chunk, at least
/// 64 KiB) and of the warm-up body (128 KiB, or the full body when that
/// is smaller; the warm-up is a prefix of the full body).
pub fn upload_sizes(chunk_bytes: usize) -> (r: (usize, usize))
    ensures
        r.0 == if chunk_bytes < MIN_UPLOAD_BYTES {
            MIN_UPLOAD_BYTES
        } else {
            chunk_bytes
        },
        r.1 == if r.0 < WARMUP_BYTES {
            r.0
        } else {
            WARMUP_BYTES
        },
        r.1 <= r.0,
{
    let full = if chunk_bytes < MIN_UPLOAD_BYTES {
        MIN_UPLOAD_BYTES
    } else {
        chunk_bytes
    };
    let warmup = if full < WARMUP_BYTES {
        full
    } else {
        WARMUP_BYTES
    };
    (full, warmup)
}

/// A finished transfer phase's byte count, or the error when the server
/// moved no data at all.
pub fn transferred(total: u64) -> (r: Result<u64, EngineError>)
    ensures
        total > 0 ==> r == Ok::<u64, EngineError>(total),
        total == 0 ==> (r matches Err(EngineError::InvalidResponse(m)) && m@
            == "server transferred no data"@),
{
    if total == 0 {
        Err(EngineError::InvalidResponse(string_of(&chars_of("server transferred no data"))))
    } else {
        Ok(total)
    }
}

// ── ICMP loss ────────────────────────────────────────────────────────────────

/// Number of echo requests per ICMP loss measurement.
pub const ICMP_PACKETS: u16 = 20;

/// The loss an ICMP burst reports: the number of lost echoes out of
/// [`ICMP_PACKETS`], except that losing every echo reports nothing (that
/// almost always means a firewall dropping ICMP, not a dead link).
pub fn reported_loss(lost: u32) -> (r: Option<u32>)
    requires
        lost <= ICMP_PACKETS,
    ensures
        r == (if lost == ICMP_PACKETS {
            None
        } else {
            Some(lost)
        }),
{
    if lost == ICMP_PACKETS as u32 {
        None
    } else {
        Some(lost)
    }
}

/// The family of a resolved address.
#[derive(Debug, Clone, Copy, PartialEq, Eq, Structural)]
pub enum AddressKind {
    V4,
    V6,
}

/// The index of the address an ICMP probe uses, preferring IPv4.
pub fn preferred_address(kinds: &[AddressKind]) -> (r: Option<usize>)
    ensures
        match r {
            Some(i) => {
                &&& i < kinds@.len()
                &&& forall|k: int| 0 <= k < i ==> kinds@[k] != AddressKind::V4
                &&& (kinds@[i as int] == AddressKind::V4 || (i == 0 && forall|k: int|
                    0 <= k < kinds@.len() ==> kinds@[k] != AddressKind::V4))
            },
            None => kinds@.len() == 0,
        },
{
    let mut i: usize = 0;
    while i < kinds.len()
        invariant
            i <= kinds@.len(),
            forall|k: int| 0 <= k < i ==> kinds@[k] != AddressKind::V4,
        decreases kinds.len() - i,
    {
        if kinds[i] == AddressKind::V4 {
            return Some(i);
        }
        i += 1;
    }
    if kinds.len() > 0 {
        Some(0)
    } else {
        None
    }
}

// ── Incompressible payloads ──────────────────────────────────────────────────

/// One xorshift64 step.
pub open spec fn xorshift(s: u64) -> u64 {
    let a = s ^ (s << 13u64);
    let b = a ^ (a >> 7u64);
    b ^ (b << 17u64)
}

/// The xorshift state after `n` steps from `seed`.
pub open spec fn xorshift_n(seed: u64, n: nat) -> u64
    decreases n,
{
    if n == 0 {
        seed
    } else {
        xorshift(xorshift_n(seed, (n - 1) as nat))
    }
}

/// Byte `i` of the pseudo-random stream from `seed`: the low byte of the
/// state after `i + 1` steps.
pub open spec fn stream_byte(seed: u64, i: nat) -> u8 {
    (xorshift_n(seed, i + 1) & 0xff) as u8
}

fn step(s: u64) -> (r: u64)
    ensures
        r == xorshift(s),
{
    let a = s ^ (s << 13u64);
    let b = a ^ (a >> 7u64);
    b ^ (b << 17u64)
}

/// The first `len` bytes of the pseudo-random stream from `seed`.
pub fn xorshift_bytes(seed: u64, len: usize) -> (r: Vec<u8>)
    ensures
        r@.len() == len,
        forall|i: int| 0 <= i < len ==> #[trigger] r@[i] == stream_byte(seed, i as nat),
{
    let mut data: Vec<u8> = Vec::new();
    let mut state = seed;
    let mut i: usize = 0;
    while i < len
        invariant
            i <= len,
            data@.len() == i,
            state == xorshift_n(seed, i as nat),
            forall|k: int| 0 <= k < i ==> #[trigger] data@[k] == stream_byte(seed, k as nat),
        decreases len - i,
    {
        state = step(state);
        data.push((state & 0xff) as u8);
        i += 1;
    }
    data
}

/// The seed of the upload payload stream.
pub const UPLOAD_SEED: u64 = 0x9e37_79b9_7f4a_7c15;

/// Builds the shared upload payload.
///
/// The payload is pseudo-random (xorshift) so transparent compression
/// anywhere on the path cannot inflate the measured speed.
pub fn build_payload(total_bytes: usize) -> (r: Vec<u8>)
    ensures
        r@.len() == total_bytes,
        forall|i: int| 0 <= i < total_bytes ==> #[trigger] r@[i] == stream_byte(UPLOAD_SEED, i as nat),
{
    xorshift_bytes(UPLOAD_SEED, total_bytes)
}

/// A shorter payload is a prefix of a longer one, so the upload warm-up
/// body (a prefix of the full payload) carries the same bytes.
pub proof fn law_payload_prefix(short: Seq<u8>, long: Seq<u8>, n: nat, m: nat)
    requires
        n <= m,
        short.len() == n,
        long.len() == m,
        forall|i: int| 0 <= i < n ==> #[trigger] short[i] == stream_byte(UPLOAD_SEED, i as nat),
        forall|i: int| 0 <= i < m ==> #[trigger] long[i] == stream_byte(UPLOAD_SEED, i as nat),
    ensures
        short == long.take(n as int),
{
    assert(short =~= long.take(n as int));
}

} // verus!
