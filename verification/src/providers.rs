//! Where speed test servers come from: provider kinds, the built-in
//! server list, and the rules that turn provider directory entries into
//! validated servers.

use vstd::prelude::*;

use crate::errors::EngineError;
use crate::models::{server_from_base_spec, Endpoints, Server};
use crate::text::{
    before_char, blank, chars_of, concat, contains_char, contains_seq, contains_slice,
    copy_range, decimal, decimal_of, find, find_char, is_blank, lowercase, prefix_before,
    slices_equal, starts_with, string_of, to_lowercase, trim, trimmed, ascii_lower_seq,
    is_ascii_seq,
};

verus! {

// ── Provider kinds ───────────────────────────────────────────────────────────

/// The providers a user can select in configuration or with
/// `--provider`.
#[derive(Debug, Clone, Copy, PartialEq, Eq, Structural)]
pub enum ProviderKind {
    /// The open-source LibreSpeed backend network.
    Librespeed,
    /// Ookla's speedtest.net server network.
    Ookla,
    /// Netflix's Fast.com CDN targets.
    Fast,
    /// User-defined servers from `[[servers]]` in the configuration.
    Custom,
}

/// The human-readable label of a provider kind.
pub open spec fn provider_label(k: ProviderKind) -> Seq<char> {
    match k {
        ProviderKind::Librespeed => "LibreSpeed"@,
        ProviderKind::Ookla => "Ookla"@,
        ProviderKind::Fast => "Fast.com"@,
        ProviderKind::Custom => "Custom"@,
    }
}

/// The provider kind named by an already lowercased word, if any.
pub open spec fn provider_from_lowercase(lower: Seq<char>) -> Option<ProviderKind> {
    if lower == "librespeed"@ {
        Some(ProviderKind::Librespeed)
    } else if lower == "ookla"@ || lower == "speedtest"@ {
        Some(ProviderKind::Ookla)
    } else if lower == "fast"@ || lower == "fast.com"@ {
        Some(ProviderKind::Fast)
    } else if lower == "custom"@ {
        Some(ProviderKind::Custom)
    } else {
        None
    }
}

/// `format!("{:?}", s)` for a string: the text quoted and escaped.
pub uninterp spec fn debug_quoted(s: Seq<char>) -> Seq<char>;

/// The message for an unknown provider word (given lowercased).
pub open spec fn unknown_provider_text(lower: Seq<char>) -> Seq<char> {
    "unknown provider "@ + debug_quoted(lower) + "; expected librespeed, ookla, fast or custom"@
}

/// `format!("{:?}", s)`: the Debug form of a string slice.
///
/// The result is named [`debug_quoted`] of the input; escaping rules are
/// not restated.
#[verifier::external_body]
pub(crate) fn debug_text(s: &str) -> (r: String)
    ensures
        r@ == debug_quoted(s@),
{
    format!("{s:?}")
}

impl ProviderKind {
    /// Human-readable label for this provider kind.
    pub fn label(self) -> (r: &'static str)
        ensures
            r@ == provider_label(self),
    {
        match self {
            ProviderKind::Librespeed => "LibreSpeed",
            ProviderKind::Ookla => "Ookla",
            ProviderKind::Fast => "Fast.com",
            ProviderKind::Custom => "Custom",
        }
    }

    /// One-line description shown by `--list-providers`.
    pub fn description(self) -> (r: &'static str)
        ensures
            r@ == match self {
                ProviderKind::Librespeed => "open-source community server network"@,
                ProviderKind::Ookla => "Ookla speedtest.net"@,
                ProviderKind::Fast => "Netflix Fast.com"@,
                ProviderKind::Custom =>
                    "your own [[servers]] in config.toml (LAN, pods, self-hosted backends)"@,
            },
    {
        match self {
            ProviderKind::Librespeed => "open-source community server network",
            ProviderKind::Ookla => "Ookla speedtest.net",
            ProviderKind::Fast => "Netflix Fast.com",
            ProviderKind::Custom => "your own [[servers]] in config.toml (LAN, pods, self-hosted backends)",
        }
    }

    /// All selectable provider kinds, in display order.
    pub fn all() -> (r: [ProviderKind; 4])
        ensures
            r@ == seq![
                ProviderKind::Librespeed,
                ProviderKind::Ookla,
                ProviderKind::Fast,
                ProviderKind::Custom,
            ],
    {
        let r = [ProviderKind::Librespeed, ProviderKind::Ookla, ProviderKind::Fast, ProviderKind::Custom];
        assert(r@ =~= seq![
            ProviderKind::Librespeed,
            ProviderKind::Ookla,
            ProviderKind::Fast,
            ProviderKind::Custom,
        ]);
        r
    }

    /// Selects the provider named by `lower`, a word already in
    /// lowercase; unknown words give the error message.
    pub fn from_lowercase(lower: &str) -> (r: Result<ProviderKind, String>)
        ensures
            match r {
                Ok(k) => provider_from_lowercase(lower@) == Some(k),
                Err(message) => provider_from_lowercase(lower@) is None && message@
                    == unknown_provider_text(lower@),
            },
    {
        let l = chars_of(lower);
        if slices_equal(&l, &chars_of("librespeed")) {
            Ok(ProviderKind::Librespeed)
        } else if slices_equal(&l, &chars_of("ookla")) || slices_equal(&l, &chars_of("speedtest")) {
            Ok(ProviderKind::Ookla)
        } else if slices_equal(&l, &chars_of("fast")) || slices_equal(&l, &chars_of("fast.com")) {
            Ok(ProviderKind::Fast)
        } else if slices_equal(&l, &chars_of("custom")) {
            Ok(ProviderKind::Custom)
        } else {
            let head = chars_of("unknown provider ");
            let quoted = chars_of(debug_text(lower).as_str());
            let tail = chars_of("; expected librespeed, ookla, fast or custom");
            let t = concat(&concat(&head, &quoted), &tail);
            Err(string_of(&t))
        }
    }

    /// Parses a provider name, ignoring case (`librespeed`, `ookla` or
    /// `speedtest`, `fast` or `fast.com`, `custom`).
    pub fn parse(value: &str) -> (r: Result<ProviderKind, String>)
        ensures
            match r {
                Ok(k) => provider_from_lowercase(lowercase(value@)) == Some(k),
                Err(message) => provider_from_lowercase(lowercase(value@)) is None && message@
                    == unknown_provider_text(lowercase(value@)),
            },
            is_ascii_seq(value@) ==> match r {
                Ok(k) => provider_from_lowercase(ascii_lower_seq(value@)) == Some(k),
                Err(_) => provider_from_lowercase(ascii_lower_seq(value@)) is None,
            },
    {
        let lower = to_lowercase(value);
        ProviderKind::from_lowercase(lower.as_str())
    }
}

impl Default for ProviderKind {
    fn default() -> (r: ProviderKind)
        ensures
            r == ProviderKind::Librespeed,
    {
        ProviderKind::Librespeed
    }
}

impl std::str::FromStr for ProviderKind {
    type Err = String;

    fn from_str(value: &str) -> (r: Result<ProviderKind, String>)
        ensures
            match r {
                Ok(k) => provider_from_lowercase(lowercase(value@)) == Some(k),
                Err(message) => provider_from_lowercase(lowercase(value@)) is None && message@
                    == unknown_provider_text(lowercase(value@)),
            },
            is_ascii_seq(value@) ==> match r {
                Ok(k) => provider_from_lowercase(ascii_lower_seq(value@)) == Some(k),
                Err(_) => provider_from_lowercase(ascii_lower_seq(value@)) is None,
            },
    {
        ProviderKind::parse(value)
    }
}

/// Every provider's label, lowercased, names that provider: parsing a
/// label gives back its kind.
pub proof fn law_provider_label_parses(k: ProviderKind)
    ensures
        is_ascii_seq(provider_label(k)),
        provider_from_lowercase(ascii_lower_seq(provider_label(k))) == Some(k),
{
    reveal_strlit("LibreSpeed");
    reveal_strlit("Ookla");
    reveal_strlit("Fast.com");
    reveal_strlit("Custom");
    reveal_strlit("librespeed");
    reveal_strlit("ookla");
    reveal_strlit("speedtest");
    reveal_strlit("fast");
    reveal_strlit("fast.com");
    reveal_strlit("custom");
    let l = provider_label(k);
    let lower = ascii_lower_seq(l);
    match k {
        ProviderKind::Librespeed => {
            assert(lower =~= "librespeed"@);
        },
        ProviderKind::Ookla => {
            assert(lower =~= "ookla"@);
        },
        ProviderKind::Fast => {
            assert(lower =~= "fast.com"@);
            assert(lower != "fast"@);
        },
        ProviderKind::Custom => {
            assert(lower =~= "custom"@);
            assert(lower != "librespeed"@);
        },
    }
}

// ── Custom provider ──────────────────────────────────────────────────────────

/// A provider serving exactly the servers the user configured.
pub struct CustomProvider {
    servers: Vec<Server>,
}

impl CustomProvider {
    /// The configured servers.
    pub closed spec fn view(&self) -> Seq<Server> {
        self.servers@
    }

    /// Creates the provider from `[[servers]]` entries.
    ///
    /// Fails when the list is empty: selecting `provider = "custom"`
    /// without declaring servers is a configuration error worth
    /// surfacing immediately rather than at test time.
    pub fn new(servers: Vec<Server>) -> (r: Result<CustomProvider, EngineError>)
        ensures
            servers@.len() > 0 ==> (r matches Ok(p) && p.view() == servers@),
            servers@.len() == 0 ==> (r matches Err(EngineError::InvalidResponse(m)) && m@
                == "provider \"custom\" requires at least one [[servers]] entry in config.toml"@),
    {
        if servers.len() == 0 {
            return Err(
                EngineError::InvalidResponse(
                    string_of(
                        &chars_of(
                            "provider \"custom\" requires at least one [[servers]] entry in config.toml",
                        ),
                    ),
                ),
            );
        }
        Ok(CustomProvider { servers })
    }

    /// The servers this provider serves.
    pub fn servers(&self) -> (r: &Vec<Server>)
        ensures
            r@ == self.view(),
    {
        &self.servers
    }
}

// ── LibreSpeed ───────────────────────────────────────────────────────────────

/// A download path that requests a large payload: unchanged when it
/// already carries a `ckSize=` parameter, otherwise `ckSize=100` is
/// appended as a new or additional query parameter.
pub open spec fn download_query(path: Seq<char>) -> Seq<char> {
    if contains_seq(path, "ckSize="@) {
        path
    } else if path.contains('?') {
        path + "&"@ + "ckSize=100"@
    } else {
        path + "?"@ + "ckSize=100"@
    }
}

/// Ensures the download path requests a large payload.
pub fn with_download_query(path: &str) -> (r: String)
    ensures
        r@ == download_query(path@),
{
    let p = chars_of(path);
    if contains_slice(&p, &chars_of("ckSize=")) {
        string_of(&p)
    } else if contains_char(&p, '?') {
        let t = concat(&concat(&p, &chars_of("&")), &chars_of("ckSize=100"));
        string_of(&t)
    } else {
        let t = concat(&concat(&p, &chars_of("?")), &chars_of("ckSize=100"));
        string_of(&t)
    }
}

/// Adding the download query is idempotent: a path that went through
/// [`with_download_query`] already requests a large payload.
pub proof fn law_download_query_idempotent(path: Seq<char>)
    ensures
        download_query(download_query(path)) == download_query(path),
{
    reveal_strlit("ckSize=");
    reveal_strlit("ckSize=100");
    reveal_strlit("&");
    reveal_strlit("?");
    let q = download_query(path);
    if !contains_seq(path, "ckSize="@) {
        let i: int = path.len() as int + 1;
        assert(q.subrange(i, i + 7) =~= "ckSize="@);
        assert(contains_seq(q, "ckSize="@)) by {
            assert(crate::text::occurs_at(q, "ckSize="@, i));
        }
    }
}

/// The well-known public LibreSpeed backends used when discovery fails,
/// as `(name, base URL)` pairs.
pub open spec fn builtin_backends() -> Seq<(Seq<char>, Seq<char>)> {
    seq![
        ("Frankfurt, Germany (Clouvider)"@, "fra.speedtest.clouvider.net/backend"@),
        ("London, United Kingdom (Clouvider)"@, "lon.speedtest.clouvider.net/backend"@),
        ("New York, USA (Clouvider)"@, "nyc.speedtest.clouvider.net/backend"@),
        ("Los Angeles, USA (Clouvider)"@, "la.speedtest.clouvider.net/backend"@),
    ]
}

/// Well-known public LibreSpeed backends used when discovery fails.
pub fn builtin_servers() -> (r: Vec<Server>)
    ensures
        r@.len() == 4,
        forall|i: int|
            0 <= i < 4 ==> server_from_base_spec(
                #[trigger] r@[i],
                builtin_backends()[i].0,
                builtin_backends()[i].1,
                download_query("garbage.php"@),
                "empty.php"@,
                "empty.php"@,
            ),
{
    let names = [
        "Frankfurt, Germany (Clouvider)",
        "London, United Kingdom (Clouvider)",
        "New York, USA (Clouvider)",
        "Los Angeles, USA (Clouvider)",
    ];
    let bases = [
        "fra.speedtest.clouvider.net/backend",
        "lon.speedtest.clouvider.net/backend",
        "nyc.speedtest.clouvider.net/backend",
        "la.speedtest.clouvider.net/backend",
    ];
    let download = with_download_query("garbage.php");
    let mut r: Vec<Server> = Vec::new();
    let mut i: usize = 0;
    while i < 4
        invariant
            i <= 4,
            r@.len() == i,
            download@ == download_query("garbage.php"@),
            forall|k: int| 0 <= k < 4 ==> (#[trigger] names@[k])@ == builtin_backends()[k].0,
            forall|k: int| 0 <= k < 4 ==> (#[trigger] bases@[k])@ == builtin_backends()[k].1,
            forall|k: int|
                0 <= k < i ==> server_from_base_spec(
                    #[trigger] r@[k],
                    builtin_backends()[k].0,
                    builtin_backends()[k].1,
                    download_query("garbage.php"@),
                    "empty.php"@,
                    "empty.php"@,
                ),
        decreases 4 - i,
    {
        let s = Server::from_base(names[i], bases[i], download.as_str(), "empty.php", "empty.php");
        r.push(s);
        i += 1;
    }
    r
}

/// The servers LibreSpeed discovery settles on once the remote list was
/// asked for: the remote servers when the request succeeded with at
/// least one, else the built-in backends (discovery is best-effort and
/// never fails the application).
pub fn remote_or_builtin(remote: Result<Vec<Server>, EngineError>) -> (r: Vec<Server>)
    ensures
        match remote {
            Ok(servers) => servers@.len() > 0 ==> r == servers,
            Err(_) => true,
        },
        !(remote matches Ok(servers) && servers@.len() > 0) ==> {
            &&& r@.len() == 4
            &&& forall|i: int|
                0 <= i < 4 ==> server_from_base_spec(
                    #[trigger] r@[i],
                    builtin_backends()[i].0,
                    builtin_backends()[i].1,
                    download_query("garbage.php"@),
                    "empty.php"@,
                    "empty.php"@,
                )
        },
{
    match remote {
        Ok(servers) => {
            if servers.len() > 0 {
                servers
            } else {
                builtin_servers()
            }
        },
        Err(_) => builtin_servers(),
    }
}

/// One entry of the LibreSpeed server list, every field optional because
/// the list is community-maintained.
#[derive(Debug, Clone)]
pub struct LibreSpeedEntry {
    /// Display name.
    pub name: Option<String>,
    /// Base URL of the backend.
    pub server: Option<String>,
    /// Download path (`dlURL`).
    pub dl_url: Option<String>,
    /// Upload path (`ulURL`).
    pub ul_url: Option<String>,
    /// Ping path (`pingURL`).
    pub ping_url: Option<String>,
}

/// Whether a LibreSpeed entry yields a server, and the
/// `(name, base, download, upload, ping)` that
/// [`Server::from_base`] receives for it.
pub open spec fn librespeed_target(e: LibreSpeedEntry) -> Option<
    (Seq<char>, Seq<char>, Seq<char>, Seq<char>, Seq<char>),
> {
    match (e.name, e.server, e.dl_url, e.ul_url, e.ping_url) {
        (Some(name), Some(base), Some(dl), Some(ul), Some(ping)) => if is_blank(name@) || is_blank(
            base@,
        ) {
            None
        } else {
            Some((trim(name@), base@, download_query(dl@), ul@, ping@))
        },
        _ => None,
    }
}

/// The targets of the entries that yield servers, in order.
pub open spec fn librespeed_targets(entries: Seq<LibreSpeedEntry>) -> Seq<
    (Seq<char>, Seq<char>, Seq<char>, Seq<char>, Seq<char>),
>
    decreases entries.len(),
{
    if entries.len() == 0 {
        seq![]
    } else {
        let rest = librespeed_targets(entries.drop_last());
        match librespeed_target(entries.last()) {
            Some(t) => rest.push(t),
            None => rest,
        }
    }
}

/// Validated servers from LibreSpeed list entries.
///
/// Entries missing any required field, or with a blank name or base,
/// are dropped. Download URLs get a chunk-count query when the entry
/// does not provide one.
pub fn librespeed_servers(entries: &Vec<LibreSpeedEntry>) -> (r: Vec<Server>)
    ensures
        r@.len() == librespeed_targets(entries@).len(),
        forall|i: int|
            0 <= i < r@.len() ==> {
                let t = #[trigger] librespeed_targets(entries@)[i];
                server_from_base_spec(r@[i], t.0, t.1, t.2, t.3, t.4)
            },
{
    let mut r: Vec<Server> = Vec::new();
    let mut i: usize = 0;
    while i < entries.len()
        invariant
            i <= entries@.len(),
            r@.len() == librespeed_targets(entries@.take(i as int)).len(),
            forall|k: int|
                0 <= k < r@.len() ==> {
                    let t = #[trigger] librespeed_targets(entries@.take(i as int))[k];
                    server_from_base_spec(r@[k], t.0, t.1, t.2, t.3, t.4)
                },
        decreases entries.len() - i,
    {
        let e = &entries[i];
        assert(entries@.take(i + 1).drop_last() =~= entries@.take(i as int));
        assert(entries@.take(i + 1).last() == entries@[i as int]);
        match (&e.name, &e.server, &e.dl_url, &e.ul_url, &e.ping_url) {
            (Some(name), Some(base), Some(dl), Some(ul), Some(ping)) => {
                let n = chars_of(name.as_str());
                let b = chars_of(base.as_str());
                if !blank(&n) && !blank(&b) {
                    let tn = string_of(&trimmed(&n));
                    let d = with_download_query(dl.as_str());
                    let s = Server::from_base(
                        tn.as_str(),
                        base.as_str(),
                        d.as_str(),
                        ul.as_str(),
                        ping.as_str(),
                    );
                    r.push(s);
                }
            },
            _ => {},
        }
        i += 1;
    }
    assert(entries@.take(entries@.len() as int) =~= entries@);
    r
}

// ── Ookla ────────────────────────────────────────────────────────────────────

/// One entry of the speedtest.net server directory.
#[derive(Debug, Clone)]
pub struct OoklaEntry {
    /// Host and port, e.g. `host.example.net:8080`.
    pub host: Option<String>,
    /// City name.
    pub name: Option<String>,
    /// Sponsor (the organisation running the server).
    pub sponsor: Option<String>,
}

/// The server that [`server_for_host`] builds for a display name and an
/// Ookla host.
pub open spec fn ookla_server_spec(s: Server, name: Seq<char>, host: Seq<char>) -> bool {
    let base = "https://"@ + host + "/speedtest/"@;
    &&& s.name@ == name
    &&& s.description@ == before_char(host, ':')
    &&& s.endpoints.ping@ == base + "latency.txt"@
    &&& s.endpoints.download@ == base + "random4000x4000.jpg"@
    &&& s.endpoints.upload@ == base + "upload.php"@
}

/// Builds a server from an Ookla host (`host.example.net:8080`).
pub fn server_for_host(name: &str, host: &str) -> (r: Server)
    ensures
        ookla_server_spec(r, name@, host@),
{
    let h = chars_of(host);
    let base = concat(&concat(&chars_of("https://"), &h), &chars_of("/speedtest/"));
    Server {
        name: string_of(&chars_of(name)),
        description: string_of(&prefix_before(&h, ':')),
        endpoints: Endpoints {
            ping: string_of(&concat(&base, &chars_of("latency.txt"))),
            download: string_of(&concat(&base, &chars_of("random4000x4000.jpg"))),
            upload: string_of(&concat(&base, &chars_of("upload.php"))),
        },
    }
}

/// Whether an Ookla entry yields a server, and its `(name, host)`: the
/// trimmed city, followed by the trimmed sponsor in parentheses when
/// there is one, and the trimmed host.
pub open spec fn ookla_target(e: OoklaEntry) -> Option<(Seq<char>, Seq<char>)> {
    match (e.host, e.name) {
        (Some(host), Some(city)) => if is_blank(host@) || is_blank(city@) {
            None
        } else {
            let sponsor = match e.sponsor {
                Some(s) => s@,
                None => Seq::<char>::empty(),
            };
            let name = if is_blank(sponsor) {
                trim(city@)
            } else {
                trim(city@) + " ("@ + trim(sponsor) + ")"@
            };
            Some((name, trim(host@)))
        },
        _ => None,
    }
}

/// The targets of the entries that yield servers, in order.
pub open spec fn ookla_targets(entries: Seq<OoklaEntry>) -> Seq<(Seq<char>, Seq<char>)>
    decreases entries.len(),
{
    if entries.len() == 0 {
        seq![]
    } else {
        let rest = ookla_targets(entries.drop_last());
        match ookla_target(entries.last()) {
            Some(t) => rest.push(t),
            None => rest,
        }
    }
}

/// Validated servers from speedtest.net directory entries.
///
/// Entries without a usable host or city are dropped rather than
/// trusted.
pub fn ookla_servers(entries: &Vec<OoklaEntry>) -> (r: Vec<Server>)
    ensures
        r@.len() == ookla_targets(entries@).len(),
        forall|i: int|
            0 <= i < r@.len() ==> {
                let t = #[trigger] ookla_targets(entries@)[i];
                ookla_server_spec(r@[i], t.0, t.1)
            },
{
    let mut r: Vec<Server> = Vec::new();
    let mut i: usize = 0;
    while i < entries.len()
        invariant
            i <= entries@.len(),
            r@.len() == ookla_targets(entries@.take(i as int)).len(),
            forall|k: int|
                0 <= k < r@.len() ==> {
                    let t = #[trigger] ookla_targets(entries@.take(i as int))[k];
                    ookla_server_spec(r@[k], t.0, t.1)
                },
        decreases entries.len() - i,
    {
        let e = &entries[i];
        assert(entries@.take(i + 1).drop_last() =~= entries@.take(i as int));
        assert(entries@.take(i + 1).last() == entries@[i as int]);
        match (&e.host, &e.name) {
            (Some(host), Some(city)) => {
                let h = chars_of(host.as_str());
                let c = chars_of(city.as_str());
                if !blank(&h) && !blank(&c) {
                    let sponsor = match &e.sponsor {
                        Some(s) => chars_of(s.as_str()),
                        None => Vec::new(),
                    };
                    let tc = trimmed(&c);
                    let name = if blank(&sponsor) {
                        tc
                    } else {
                        let ts = trimmed(&sponsor);
                        concat(&concat(&concat(&tc, &chars_of(" (")), &ts), &chars_of(")"))
                    };
                    let th = string_of(&trimmed(&h));
                    let s = server_for_host(string_of(&name).as_str(), th.as_str());
                    r.push(s);
                }
            },
            _ => {},
        }
        i += 1;
    }
    assert(entries@.take(entries@.len() as int) =~= entries@);
    r
}

// ── Fast.com ─────────────────────────────────────────────────────────────────

/// Bytes requested per Fast.com download range (~25 MB); workers loop
/// requests.
pub const DOWNLOAD_RANGE_BYTES: u64 = 26_214_400;

/// A target URL with a `/range/0-N` segment inserted before its query
/// string.
pub open spec fn ranged(url: Seq<char>, bytes: u64) -> Seq<char> {
    let q = find_char(url, '?');
    if q < url.len() {
        url.take(q) + "/range/0-"@ + decimal(bytes as nat) + "?"@ + url.skip(q + 1)
    } else {
        url + "/range/0-"@ + decimal(bytes as nat)
    }
}

/// Inserts a `/range/0-N` segment into a target URL, preserving its
/// signed query string.
pub fn with_range(url: &str, bytes: u64) -> (r: String)
    ensures
        r@ == ranged(url@, bytes),
{
    let u = chars_of(url);
    let q = find(&u, '?');
    let digits = decimal_of(bytes);
    if q < u.len() {
        let path = copy_range(&u, 0, q);
        let query = copy_range(&u, q + 1, u.len());
        let t = concat(
            &concat(&concat(&concat(&path, &chars_of("/range/0-")), &digits), &chars_of("?")),
            &query,
        );
        string_of(&t)
    } else {
        let t = concat(&concat(&u, &chars_of("/range/0-")), &digits);
        string_of(&t)
    }
}

/// The location of a Fast.com target.
#[derive(Debug, Clone)]
pub struct FastLocation {
    /// City name.
    pub city: Option<String>,
    /// Country name.
    pub country: Option<String>,
}

/// One target of the Fast.com API response.
#[derive(Debug, Clone)]
pub struct FastTarget {
    /// Signed target URL.
    pub url: Option<String>,
    /// Where the target is.
    pub location: Option<FastLocation>,
}

/// Whether a Fast.com target yields a server, and its `(name, host, url)`:
/// only `https://` URLs with a non-empty host count; the name shows the
/// city and country when both are known, else the host.
pub open spec fn fast_target(t: FastTarget) -> Option<(Seq<char>, Seq<char>, Seq<char>)> {
    match t.url {
        Some(url) => if !"https://"@.is_prefix_of(url@) {
            None
        } else {
            let host = before_char(url@.skip(8), '/');
            if host.len() == 0 {
                None
            } else {
                let name = match t.location {
                    Some(FastLocation { city: Some(city), country: Some(country) }) =>
                        "Fast.com — "@ + city@ + ", "@ + country@,
                    _ => "Fast.com — "@ + host,
                };
                Some((name, host, url@))
            }
        },
        None => None,
    }
}

/// The targets that yield servers, in order.
pub open spec fn fast_targets(targets: Seq<FastTarget>) -> Seq<(Seq<char>, Seq<char>, Seq<char>)>
    decreases targets.len(),
{
    if targets.len() == 0 {
        seq![]
    } else {
        let rest = fast_targets(targets.drop_last());
        match fast_target(targets.last()) {
            Some(t) => rest.push(t),
            None => rest,
        }
    }
}

/// The server built for a Fast.com target: a zero-byte range for ping
/// and health probes, a large range for download and upload.
pub open spec fn fast_server_spec(s: Server, name: Seq<char>, host: Seq<char>, url: Seq<char>) -> bool {
    &&& s.name@ == name
    &&& s.description@ == host
    &&& s.endpoints.ping@ == ranged(url, 0)
    &&& s.endpoints.download@ == ranged(url, DOWNLOAD_RANGE_BYTES)
    &&& s.endpoints.upload@ == ranged(url, DOWNLOAD_RANGE_BYTES)
}

/// Validated servers from the Fast.com target list.
pub fn fast_servers(targets: &Vec<FastTarget>) -> (r: Vec<Server>)
    ensures
        r@.len() == fast_targets(targets@).len(),
        forall|i: int|
            0 <= i < r@.len() ==> {
                let t = #[trigger] fast_targets(targets@)[i];
                fast_server_spec(r@[i], t.0, t.1, t.2)
            },
{
    proof {
        reveal_strlit("https://");
    }
    let mut r: Vec<Server> = Vec::new();
    let mut i: usize = 0;
    while i < targets.len()
        invariant
            i <= targets@.len(),
            r@.len() == fast_targets(targets@.take(i as int)).len(),
            forall|k: int|
                0 <= k < r@.len() ==> {
                    let t = #[trigger] fast_targets(targets@.take(i as int))[k];
                    fast_server_spec(r@[k], t.0, t.1, t.2)
                },
        decreases targets.len() - i,
    {
        let t = &targets[i];
        assert(targets@.take(i + 1).drop_last() =~= targets@.take(i as int));
        assert(targets@.take(i + 1).last() == targets@[i as int]);
        match &t.url {
            Some(url) => {
                let u = chars_of(url.as_str());
                proof {
                    reveal_strlit("https://");
                }
                if starts_with(&u, &chars_of("https://")) {
                    let rest = copy_range(&u, 8, u.len());
                    let host = prefix_before(&rest, '/');
                    if host.len() > 0 {
                        let name = match &t.location {
                            Some(FastLocation { city: Some(city), country: Some(country) }) => {
                                concat(
                                    &concat(
                                        &concat(&chars_of("Fast.com — "), &chars_of(city.as_str())),
                                        &chars_of(", "),
                                    ),
                                    &chars_of(country.as_str()),
                                )
                            },
                            _ => concat(&chars_of("Fast.com — "), &host),
                        };
                        let s = Server {
                            name: string_of(&name),
                            description: string_of(&host),
                            endpoints: Endpoints {
                                ping: with_range(url.as_str(), 0),
                                download: with_range(url.as_str(), DOWNLOAD_RANGE_BYTES),
                                upload: with_range(url.as_str(), DOWNLOAD_RANGE_BYTES),
                            },
                        };
                        r.push(s);
                    }
                }
            },
            None => {},
        }
        i += 1;
    }
    assert(targets@.take(targets@.len() as int) =~= targets@);
    r
}

} // verus!
