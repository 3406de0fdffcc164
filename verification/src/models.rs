//! Domain models shared by the engine and its consumers: test phases,
//! grades and speed test servers.

use vstd::prelude::*;

use crate::text::{
    before_char, chars_of, concat, contains_seq, contains_slice, copy_range, is_white_space,
    lemma_trim_identity, lowercase, prefix_before, skip_leading, starts_with, string_of,
    strip_leading, to_lowercase, trim, trimmed,
};

verus! {

/// A single phase within a speed test run.
///
/// Phases always execute in the order: ping, download, upload.
#[derive(Debug, Clone, Copy, PartialEq, Eq, Hash, Structural)]
pub enum TestPhase {
    /// Latency and jitter measurement.
    Ping,
    /// Download throughput measurement.
    Download,
    /// Upload throughput measurement.
    Upload,
}

/// The phase that follows `p` in a run, if any.
pub open spec fn phase_after(p: TestPhase) -> Option<TestPhase> {
    match p {
        TestPhase::Ping => Some(TestPhase::Download),
        TestPhase::Download => Some(TestPhase::Upload),
        TestPhase::Upload => None,
    }
}

impl TestPhase {
    /// Human-readable label for this phase.
    pub fn label(self) -> (r: &'static str)
        ensures
            r@ == match self {
                TestPhase::Ping => "Ping"@,
                TestPhase::Download => "Download"@,
                TestPhase::Upload => "Upload"@,
            },
    {
        match self {
            TestPhase::Ping => "Ping",
            TestPhase::Download => "Download",
            TestPhase::Upload => "Upload",
        }
    }

    /// The phase that follows this one, if any.
    pub fn next(self) -> (r: Option<TestPhase>)
        ensures
            r == phase_after(self),
    {
        match self {
            TestPhase::Ping => Some(TestPhase::Download),
            TestPhase::Download => Some(TestPhase::Upload),
            TestPhase::Upload => None,
        }
    }
}

/// Phases run in the order ping, download, upload: following
/// [`TestPhase::next`] from the ping phase visits download, then upload,
/// then ends, and no phase is its own successor.
pub proof fn law_phase_order(p: TestPhase)
    ensures
        phase_after(TestPhase::Ping) == Some(TestPhase::Download),
        phase_after(TestPhase::Download) == Some(TestPhase::Upload),
        phase_after(TestPhase::Upload) == None::<TestPhase>,
        phase_after(p) != Some(p),
        phase_after(p) != Some(TestPhase::Ping),
{
}

/// Bufferbloat grades, from best to worst, following the thresholds
/// popularized by Waveform's bufferbloat test.
#[derive(Debug, Clone, Copy, PartialEq, Eq, Structural, PartialOrd, Ord)]
pub enum BufferbloatGrade {
    /// Latency rises less than 5 ms under load.
    APlus,
    /// Less than 30 ms of added latency.
    A,
    /// Less than 60 ms.
    B,
    /// Less than 200 ms.
    C,
    /// Less than 400 ms.
    D,
    /// 400 ms or more — the connection collapses under load.
    F,
}

/// The display label of a bufferbloat grade.
pub open spec fn bufferbloat_label(g: BufferbloatGrade) -> Seq<char> {
    match g {
        BufferbloatGrade::APlus => "A+"@,
        BufferbloatGrade::A => "A"@,
        BufferbloatGrade::B => "B"@,
        BufferbloatGrade::C => "C"@,
        BufferbloatGrade::D => "D"@,
        BufferbloatGrade::F => "F"@,
    }
}

impl BufferbloatGrade {
    /// Display label, e.g. `A+`.
    pub fn label(self) -> (r: &'static str)
        ensures
            r@ == bufferbloat_label(self),
    {
        match self {
            BufferbloatGrade::APlus => "A+",
            BufferbloatGrade::A => "A",
            BufferbloatGrade::B => "B",
            BufferbloatGrade::C => "C",
            BufferbloatGrade::D => "D",
            BufferbloatGrade::F => "F",
        }
    }
}

/// Fully-resolved URLs for each measurement phase on a single server.
#[derive(Debug, Clone, PartialEq, Eq)]
pub struct Endpoints {
    /// URL used for latency samples (small, cache-busted GET requests).
    pub ping: String,
    /// URL streaming an effectively unbounded payload for downloads.
    pub download: String,
    /// URL accepting arbitrary POST bodies for uploads.
    pub upload: String,
}

/// A single speed test server offered by a provider.
#[derive(Debug, Clone, PartialEq, Eq)]
pub struct Server {
    /// Display name, usually including the server's location.
    pub name: String,
    /// Short secondary label, typically the server's host name.
    pub description: String,
    /// Resolved endpoints for every test phase.
    pub endpoints: Endpoints,
}

/// A base URL with a scheme and a trailing slash: surrounding white
/// space is trimmed, protocol-relative URLs (`//host/`) and bare hosts
/// get `https:`, and a `/` is appended unless present.
pub open spec fn normalized_base(base: Seq<char>) -> Seq<char> {
    let t = trim(base);
    let with_scheme = if "//"@.is_prefix_of(t) {
        "https://"@ + t.skip(2)
    } else if "http://"@.is_prefix_of(t) || "https://"@.is_prefix_of(t) {
        t
    } else {
        "https://"@ + t
    };
    if with_scheme.len() > 0 && with_scheme.last() == '/' {
        with_scheme
    } else {
        with_scheme.push('/')
    }
}

/// A normalized base joined with a relative path: leading slashes of the
/// path are dropped.
pub open spec fn joined(base: Seq<char>, path: Seq<char>) -> Seq<char> {
    base + skip_leading(path, '/')
}

/// `url` without an `https://` or (failing that) `http://` prefix.
pub open spec fn without_scheme(url: Seq<char>) -> Seq<char> {
    if "https://"@.is_prefix_of(url) {
        url.skip(8)
    } else if "http://"@.is_prefix_of(url) {
        url.skip(7)
    } else {
        url
    }
}

/// The host portion of a URL, for display: the text after the scheme
/// up to the first `/`.
pub open spec fn host_part(url: Seq<char>) -> Seq<char> {
    before_char(without_scheme(url), '/')
}

/// `s` as a character vector, with the literal's contents known.
fn literal(s: &'static str) -> (r: Vec<char>)
    ensures
        r@ == s@,
{
    chars_of(s)
}

/// Ensures a scheme and a trailing slash on a base URL.
pub fn normalize_base(base: &str) -> (r: String)
    ensures
        r@ == normalized_base(base@),
{
    proof {
        reveal_strlit("//");
        reveal_strlit("https://");
        reveal_strlit("http://");
    }
    let chars = chars_of(base);
    let t = trimmed(&chars);
    let slashes = literal("//");
    let http = literal("http://");
    let https = literal("https://");
    let mut with_scheme = if starts_with(&t, &slashes) {
        let rest = copy_range(&t, 2, t.len());
        concat(&https, &rest)
    } else if starts_with(&t, &http) || starts_with(&t, &https) {
        t
    } else {
        concat(&https, &t)
    };
    let n = with_scheme.len();
    if !(n > 0 && with_scheme[n - 1] == '/') {
        with_scheme.push('/');
    }
    string_of(&with_scheme)
}

/// Joins a normalized base URL with a relative path.
pub fn join(base: &str, path: &str) -> (r: String)
    ensures
        r@ == joined(base@, path@),
{
    let b = chars_of(base);
    let p = chars_of(path);
    let rest = strip_leading(&p, '/');
    let all = concat(&b, &rest);
    string_of(&all)
}

/// Extracts the host portion of a normalized URL for display purposes.
pub fn host_of(url: &str) -> (r: String)
    ensures
        r@ == host_part(url@),
{
    proof {
        reveal_strlit("https://");
        reveal_strlit("http://");
    }
    let u = chars_of(url);
    let https = literal("https://");
    let http = literal("http://");
    let rest = if starts_with(&u, &https) {
        copy_range(&u, 8, u.len())
    } else if starts_with(&u, &http) {
        copy_range(&u, 7, u.len())
    } else {
        u
    };
    let host = prefix_before(&rest, '/');
    string_of(&host)
}

/// The server that [`Server::from_base`] builds.
pub open spec fn server_from_base_spec(
    s: Server,
    name: Seq<char>,
    base_url: Seq<char>,
    download_path: Seq<char>,
    upload_path: Seq<char>,
    ping_path: Seq<char>,
) -> bool {
    let base = normalized_base(base_url);
    &&& s.name@ == name
    &&& s.description@ == host_part(base)
    &&& s.endpoints.ping@ == joined(base, ping_path)
    &&& s.endpoints.download@ == joined(base, download_path)
    &&& s.endpoints.upload@ == joined(base, upload_path)
}

/// Whether `query` occurs in the name or the host of a server, ignoring
/// case.
pub open spec fn server_matches(name: Seq<char>, host: Seq<char>, query: Seq<char>) -> bool {
    contains_seq(lowercase(name), lowercase(query)) || contains_seq(
        lowercase(host),
        lowercase(query),
    )
}

impl Server {
    /// Creates a server from a base URL and relative endpoint paths.
    ///
    /// The base URL is normalized: protocol-relative URLs (`//host/`) get
    /// an `https:` scheme and a trailing slash is ensured so relative
    /// paths join cleanly.
    pub fn from_base(
        name: &str,
        base_url: &str,
        download_path: &str,
        upload_path: &str,
        ping_path: &str,
    ) -> (r: Server)
        ensures
            server_from_base_spec(r, name@, base_url@, download_path@, upload_path@, ping_path@),
    {
        let base = normalize_base(base_url);
        let description = host_of(base.as_str());
        Server {
            name: string_of(&chars_of(name)),
            description,
            endpoints: Endpoints {
                ping: join(base.as_str(), ping_path),
                download: join(base.as_str(), download_path),
                upload: join(base.as_str(), upload_path),
            },
        }
    }

    /// Whether the server's name or host contains `query`, ignoring case.
    pub fn matches(&self, query: &str) -> (r: bool)
        ensures
            r == server_matches(self.name@, self.description@, query@),
    {
        let q = chars_of(to_lowercase(query).as_str());
        let name = chars_of(to_lowercase(self.name.as_str()).as_str());
        if contains_slice(&name, &q) {
            return true;
        }
        let host = chars_of(to_lowercase(self.description.as_str()).as_str());
        contains_slice(&host, &q)
    }
}

/// A normalized base URL always ends with a slash, so relative endpoint
/// paths join onto it cleanly.
pub proof fn law_normalized_base_ends_with_slash(base: Seq<char>)
    ensures
        normalized_base(base).len() > 0,
        normalized_base(base).last() == '/',
{
}

/// Normalizing a base URL twice gives the same URL as normalizing it
/// once: a normalized base already has its scheme and trailing slash.
pub proof fn law_normalize_base_idempotent(base: Seq<char>)
    ensures
        normalized_base(normalized_base(base)) == normalized_base(base),
{
    reveal_strlit("//");
    reveal_strlit("https://");
    reveal_strlit("http://");
    let t = trim(base);
    let n = normalized_base(base);
    let with_scheme = if "//"@.is_prefix_of(t) {
        "https://"@ + t.skip(2)
    } else if "http://"@.is_prefix_of(t) || "https://"@.is_prefix_of(t) {
        t
    } else {
        "https://"@ + t
    };
    // The scheme survives as a prefix of `n`, and `n` ends with '/'.
    assert("http://"@.is_prefix_of(n) || "https://"@.is_prefix_of(n)) by {
        if "//"@.is_prefix_of(t) {
            assert(n.subrange(0, 8) =~= "https://"@);
        } else if "http://"@.is_prefix_of(t) {
            assert(n.subrange(0, 7) =~= t.subrange(0, 7));
        } else if "https://"@.is_prefix_of(t) {
            assert(n.subrange(0, 8) =~= t.subrange(0, 8));
        } else {
            assert(n.subrange(0, 8) =~= "https://"@);
        }
    }
    assert(n[0] == 'h') by {
        if "http://"@.is_prefix_of(n) {
            assert(n.subrange(0, 7)[0] == 'h');
        } else {
            assert(n.subrange(0, 8)[0] == 'h');
        }
    }
    assert(!is_white_space(n[0]));
    assert(!is_white_space(n.last()));
    lemma_trim_identity(n);
    assert(!"//"@.is_prefix_of(n)) by {
        if "//"@.is_prefix_of(n) {
            assert(n.subrange(0, 2)[0] == '/');
        }
    }
}

} // verus!
