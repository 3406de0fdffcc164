//! The configuration schema and its mapping onto engine parameters.
//!
//! Every field has a default, so an empty or missing file yields a fully
//! working configuration. Durations are carried as whole milliseconds.

use vstd::prelude::*;

use crate::models::{server_from_base_spec, Server};
use crate::providers::ProviderKind;
use crate::text::{blank, chars_of, is_blank, string_of, trim, trimmed};

verus! {

/// Address family restriction for measurements.
#[derive(Debug, Clone, Copy, PartialEq, Eq, Structural)]
pub enum IpFamily {
    /// IPv4 only.
    V4,
    /// IPv6 only.
    V6,
}

/// Settings for the ping phase.
#[derive(Debug, Clone, Copy)]
pub struct PingConfig {
    /// Number of latency samples to collect.
    pub samples: u32,
    /// Delay between samples, in milliseconds.
    pub interval_ms: u64,
    /// Per-sample timeout in milliseconds; slower samples count as lost.
    pub timeout_ms: u64,
}

impl Default for PingConfig {
    fn default() -> (r: PingConfig)
        ensures
            r.samples == 10 && r.interval_ms == 100 && r.timeout_ms == 3000,
    {
        PingConfig { samples: 10, interval_ms: 100, timeout_ms: 3000 }
    }
}

/// The integer settings shared by the download and upload phases (the
/// speed smoothing factor is held by the measuring code).
#[derive(Debug, Clone, Copy)]
pub struct TransferConfig {
    /// How long each transfer phase runs, in milliseconds.
    pub duration_ms: u64,
    /// Number of parallel connections.
    pub connections: usize,
    /// How often progress snapshots are emitted, in milliseconds.
    pub sample_interval_ms: u64,
    /// Size of each upload request body, in bytes.
    pub upload_chunk_bytes: usize,
    /// Connection timeout for the shared HTTP client, in milliseconds.
    pub connect_timeout_ms: u64,
    /// Pause between announcing a transfer phase and moving data, in
    /// milliseconds; front ends use it for phase transitions and it is
    /// not part of the measurement.
    pub lead_in_ms: u64,
}

/// The default transfer settings.
pub open spec fn default_transfer(t: TransferConfig) -> bool {
    &&& t.duration_ms == 10_000
    &&& t.connections == 4
    &&& t.sample_interval_ms == 100
    &&& t.upload_chunk_bytes == 2 * 1024 * 1024
    &&& t.connect_timeout_ms == 15_000
    &&& t.lead_in_ms == 1200
}

impl Default for TransferConfig {
    fn default() -> (r: TransferConfig)
        ensures
            default_transfer(r),
    {
        TransferConfig {
            duration_ms: 10_000,
            connections: 4,
            sample_interval_ms: 100,
            // Large enough that request-per-body round trips don't cap
            // throughput on high-latency links.
            upload_chunk_bytes: 2 * 1024 * 1024,
            connect_timeout_ms: 15_000,
            lead_in_ms: 1200,
        }
    }
}

/// Complete engine configuration.
#[derive(Debug, Clone, Copy)]
pub struct EngineConfig {
    /// Ping phase settings.
    pub ping: PingConfig,
    /// Transfer phase settings.
    pub transfer: TransferConfig,
    /// Restrict measurements to one address family.
    pub ip_family: Option<IpFamily>,
}

impl Default for EngineConfig {
    fn default() -> (r: EngineConfig)
        ensures
            r.ping.samples == 10 && r.ping.interval_ms == 100 && r.ping.timeout_ms == 3000,
            default_transfer(r.transfer),
            r.ip_family is None,
    {
        EngineConfig {
            ping: PingConfig::default(),
            transfer: TransferConfig::default(),
            ip_family: None,
        }
    }
}

/// Engine tuning parameters from the `[engine]` table.
#[derive(Debug, Clone, Copy)]
pub struct EngineSection {
    /// Number of latency samples collected during the ping phase.
    pub ping_samples: u32,
    /// Delay between ping samples, in milliseconds.
    pub ping_interval_ms: u64,
    /// Duration of each transfer phase, in seconds.
    pub duration_secs: u64,
    /// Number of parallel connections per transfer phase.
    pub connections: usize,
    /// Per-connection timeout, in seconds.
    pub timeout_secs: u64,
    /// Size of each upload body, in kilobytes.
    pub upload_chunk_kb: usize,
}

impl Default for EngineSection {
    /// The engine defaults, expressed in the section's units.
    fn default() -> (r: EngineSection)
        ensures
            r.ping_samples == 10,
            r.ping_interval_ms == 100,
            r.duration_secs == 10,
            r.connections == 4,
            r.timeout_secs == 15,
            r.upload_chunk_kb == 2048,
    {
        let ping = PingConfig::default();
        let transfer = TransferConfig::default();
        EngineSection {
            ping_samples: ping.samples,
            ping_interval_ms: ping.interval_ms,
            duration_secs: transfer.duration_ms / 1000,
            connections: transfer.connections,
            timeout_secs: transfer.connect_timeout_ms / 1000,
            upload_chunk_kb: transfer.upload_chunk_bytes / 1024,
        }
    }
}

/// One custom server from a `[[servers]]` table.
#[derive(Debug, Clone)]
pub struct ServerEntry {
    /// Display name.
    pub name: String,
    /// Base URL of the backend, e.g. `https://host/backend/`.
    pub url: String,
    /// Download path relative to the base URL.
    pub download_path: String,
    /// Upload path relative to the base URL.
    pub upload_path: String,
    /// Ping path relative to the base URL.
    pub ping_path: String,
}

/// The download path used when a `[[servers]]` entry names none.
pub fn default_download_path() -> (r: String)
    ensures
        r@ == "garbage.php?ckSize=100"@,
{
    string_of(&chars_of("garbage.php?ckSize=100"))
}

/// The upload path used when a `[[servers]]` entry names none.
pub fn default_upload_path() -> (r: String)
    ensures
        r@ == "empty.php"@,
{
    string_of(&chars_of("empty.php"))
}

/// The ping path used when a `[[servers]]` entry names none.
pub fn default_ping_path() -> (r: String)
    ensures
        r@ == "empty.php"@,
{
    string_of(&chars_of("empty.php"))
}

/// The type of background wallpaper.
#[derive(Debug, Clone, Copy, PartialEq, Eq, Structural)]
pub enum WallpaperKind {
    /// Solid fill using the theme's `background` colour (default).
    Solid,
    /// Vertical colour gradient from `from` (top) to `to` (bottom).
    Gradient,
}

impl Default for WallpaperKind {
    fn default() -> (r: WallpaperKind)
        ensures
            r == WallpaperKind::Solid,
    {
        WallpaperKind::Solid
    }
}

/// What to render behind the UI — configured under `[wallpaper]`.
#[derive(Debug, Clone)]
pub struct WallpaperSection {
    /// `"none"` (default solid theme background) or `"gradient"`.
    pub kind: WallpaperKind,
    /// Gradient start (top) colour as `#rrggbb`; the theme's background
    /// when omitted.
    pub from: Option<String>,
    /// Gradient end (bottom) colour as `#rrggbb`; a darkened theme
    /// background when omitted.
    pub to: Option<String>,
}

impl Default for WallpaperSection {
    fn default() -> (r: WallpaperSection)
        ensures
            r.kind == WallpaperKind::Solid && r.from is None && r.to is None,
    {
        WallpaperSection { kind: WallpaperKind::Solid, from: None, to: None }
    }
}

/// Top-level application settings, loaded from `config.toml`, except the
/// animation speed multiplier, a float that the presentation layer owns.
#[derive(Debug, Clone)]
pub struct Settings {
    /// Name of the active theme (matched case-insensitively).
    pub theme: String,
    /// UI refresh rate in frames per second, clamped to `1..=60`.
    pub refresh_rate: u16,
    /// The speed test provider to use.
    pub provider: ProviderKind,
    /// Engine tuning parameters.
    pub engine: EngineSection,
    /// Repeat the test on this interval, e.g. `"15m"` (min 30s).
    pub repeat_interval: Option<String>,
    /// Send a desktop notification when each test finishes.
    pub notify: bool,
    /// Custom servers overriding provider discovery.
    pub servers: Vec<ServerEntry>,
    /// Background wallpaper rendered behind all UI elements.
    pub wallpaper: WallpaperSection,
}

impl Default for Settings {
    fn default() -> (r: Settings)
        ensures
            r.theme@ == "default"@,
            r.refresh_rate == 30,
            r.provider == ProviderKind::Librespeed,
            r.engine.ping_samples == 10 && r.engine.ping_interval_ms == 100
                && r.engine.duration_secs == 10 && r.engine.connections == 4
                && r.engine.timeout_secs == 15 && r.engine.upload_chunk_kb == 2048,
            r.repeat_interval is None,
            r.notify,
            r.servers@.len() == 0,
            r.wallpaper.kind == WallpaperKind::Solid && r.wallpaper.from is None
                && r.wallpaper.to is None,
    {
        Settings {
            theme: string_of(&chars_of("default")),
            refresh_rate: 30,
            provider: ProviderKind::Librespeed,
            engine: EngineSection::default(),
            repeat_interval: None,
            notify: true,
            servers: Vec::new(),
            wallpaper: WallpaperSection::default(),
        }
    }
}

/// `v` clamped to `lo..=hi`.
pub open spec fn clamped(v: int, lo: int, hi: int) -> int {
    if v < lo {
        lo
    } else if v > hi {
        hi
    } else {
        v
    }
}

fn clamp_u64(v: u64, lo: u64, hi: u64) -> (r: u64)
    requires
        lo <= hi,
    ensures
        r == clamped(v as int, lo as int, hi as int),
{
    if v < lo {
        lo
    } else if v > hi {
        hi
    } else {
        v
    }
}

/// The engine configuration that settings map onto: every user value is
/// clamped to its supported range, and the rest are engine defaults.
pub open spec fn engine_config_of(s: EngineSection, c: EngineConfig) -> bool {
    &&& c.ping.samples == clamped(s.ping_samples as int, 3, 100)
    &&& c.ping.interval_ms == clamped(s.ping_interval_ms as int, 10, 2000)
    &&& c.ping.timeout_ms == 3000
    &&& c.transfer.duration_ms == 1000 * clamped(s.duration_secs as int, 3, 60)
    &&& c.transfer.connections == clamped(s.connections as int, 1, 16)
    &&& c.transfer.sample_interval_ms == 100
    &&& c.transfer.upload_chunk_bytes == 1024 * clamped(s.upload_chunk_kb as int, 64, 8192)
    &&& c.transfer.connect_timeout_ms == 1000 * clamped(s.timeout_secs as int, 2, 120)
    &&& c.transfer.lead_in_ms == 1200
    &&& c.ip_family is None
}

/// Whether every engine value lies within the range the loader clamps
/// it to.
pub open spec fn engine_in_range(s: EngineSection) -> bool {
    &&& 3 <= s.ping_samples <= 100
    &&& 10 <= s.ping_interval_ms <= 2000
    &&& 3 <= s.duration_secs <= 60
    &&& 1 <= s.connections <= 16
    &&& 2 <= s.timeout_secs <= 120
    &&& 64 <= s.upload_chunk_kb <= 8192
}

/// The entries of `[[servers]]` with a non-blank name and URL, as the
/// `(trimmed name, url, download, upload, ping)` that
/// [`Server::from_base`] receives.
pub open spec fn custom_targets(entries: Seq<ServerEntry>) -> Seq<
    (Seq<char>, Seq<char>, Seq<char>, Seq<char>, Seq<char>),
>
    decreases entries.len(),
{
    if entries.len() == 0 {
        seq![]
    } else {
        let rest = custom_targets(entries.drop_last());
        let e = entries.last();
        if is_blank(e.name@) || is_blank(e.url@) {
            rest
        } else {
            rest.push((trim(e.name@), e.url@, e.download_path@, e.upload_path@, e.ping_path@))
        }
    }
}

impl Settings {
    /// The UI tick period, in milliseconds, derived from the configured
    /// refresh rate (clamped to 1..=60 frames per second).
    pub fn tick_rate(&self) -> (r: u64)
        ensures
            r == 1000int / clamped(self.refresh_rate as int, 1, 60),
    {
        let fps = clamp_u64(self.refresh_rate as u64, 1, 60);
        1000 / fps
    }

    /// Maps the user-facing settings onto the engine's configuration.
    pub fn engine_config(&self) -> (r: EngineConfig)
        ensures
            engine_config_of(self.engine, r),
    {
        let e = self.engine;
        let samples = clamp_u64(e.ping_samples as u64, 3, 100) as u32;
        let interval = clamp_u64(e.ping_interval_ms, 10, 2000);
        let duration = clamp_u64(e.duration_secs, 3, 60);
        let connections = clamp_u64(e.connections as u64, 1, 16) as usize;
        let chunk_kb = clamp_u64(e.upload_chunk_kb as u64, 64, 8192) as usize;
        let timeout = clamp_u64(e.timeout_secs, 2, 120);
        let defaults = EngineConfig::default();
        EngineConfig {
            ping: PingConfig {
                samples,
                interval_ms: interval,
                timeout_ms: defaults.ping.timeout_ms,
            },
            transfer: TransferConfig {
                duration_ms: duration * 1000,
                connections,
                sample_interval_ms: defaults.transfer.sample_interval_ms,
                upload_chunk_bytes: chunk_kb * 1024,
                connect_timeout_ms: timeout * 1000,
                lead_in_ms: defaults.transfer.lead_in_ms,
            },
            ip_family: None,
        }
    }

    /// Applies command line overrides on top of the file configuration.
    pub fn apply_overrides(&mut self, duration_secs: Option<u64>, connections: Option<usize>)
        ensures
            final(self).engine.duration_secs == match duration_secs {
                Some(d) => d,
                None => old(self).engine.duration_secs,
            },
            final(self).engine.connections == match connections {
                Some(c) => c,
                None => old(self).engine.connections,
            },
            final(self).engine.ping_samples == old(self).engine.ping_samples,
            final(self).engine.ping_interval_ms == old(self).engine.ping_interval_ms,
            final(self).engine.timeout_secs == old(self).engine.timeout_secs,
            final(self).engine.upload_chunk_kb == old(self).engine.upload_chunk_kb,
            final(self).theme == old(self).theme,
            final(self).refresh_rate == old(self).refresh_rate,
            final(self).provider == old(self).provider,
            final(self).repeat_interval == old(self).repeat_interval,
            final(self).notify == old(self).notify,
            final(self).servers == old(self).servers,
            final(self).wallpaper == old(self).wallpaper,
    {
        if let Some(duration) = duration_secs {
            self.engine.duration_secs = duration;
        }
        if let Some(connections) = connections {
            self.engine.connections = connections;
        }
    }

    /// Resolves the custom `[[servers]]` entries into engine servers;
    /// entries with a blank name or URL are skipped.
    pub fn custom_servers(&self) -> (r: Vec<Server>)
        ensures
            r@.len() == custom_targets(self.servers@).len(),
            forall|i: int|
                0 <= i < r@.len() ==> {
                    let t = #[trigger] custom_targets(self.servers@)[i];
                    server_from_base_spec(r@[i], t.0, t.1, t.2, t.3, t.4)
                },
    {
        let entries = &self.servers;
        let mut r: Vec<Server> = Vec::new();
        let mut i: usize = 0;
        while i < entries.len()
            invariant
                entries == &self.servers,
                i <= entries@.len(),
                r@.len() == custom_targets(entries@.take(i as int)).len(),
                forall|k: int|
                    0 <= k < r@.len() ==> {
                        let t = #[trigger] custom_targets(entries@.take(i as int))[k];
                        server_from_base_spec(r@[k], t.0, t.1, t.2, t.3, t.4)
                    },
            decreases entries.len() - i,
        {
            let e = &entries[i];
            assert(entries@.take(i + 1).drop_last() =~= entries@.take(i as int));
            assert(entries@.take(i + 1).last() == entries@[i as int]);
            let n = chars_of(e.name.as_str());
            let u = chars_of(e.url.as_str());
            if !blank(&n) && !blank(&u) {
                let tn = string_of(&trimmed(&n));
                let s = Server::from_base(
                    tn.as_str(),
                    e.url.as_str(),
                    e.download_path.as_str(),
                    e.upload_path.as_str(),
                    e.ping_path.as_str(),
                );
                r.push(s);
            }
            i += 1;
        }
        assert(entries@.take(entries@.len() as int) =~= entries@);
        r
    }
}

/// Settings whose engine values already lie in their supported ranges
/// reach the engine unchanged.
pub proof fn law_engine_config_keeps_in_range_values(s: EngineSection, c: EngineConfig)
    requires
        engine_in_range(s),
        engine_config_of(s, c),
    ensures
        c.ping.samples == s.ping_samples,
        c.ping.interval_ms == s.ping_interval_ms,
        c.transfer.duration_ms == 1000 * s.duration_secs,
        c.transfer.connections == s.connections,
        c.transfer.connect_timeout_ms == 1000 * s.timeout_secs,
        c.transfer.upload_chunk_bytes == 1024 * s.upload_chunk_kb,
{
}

/// The defaults lie within the supported ranges, so a missing or empty
/// configuration file runs the engine with its own defaults.
pub proof fn law_default_engine_in_range(s: EngineSection)
    requires
        s.ping_samples == 10,
        s.ping_interval_ms == 100,
        s.duration_secs == 10,
        s.connections == 4,
        s.timeout_secs == 15,
        s.upload_chunk_kb == 2048,
    ensures
        engine_in_range(s),
{
}

} // verus!
