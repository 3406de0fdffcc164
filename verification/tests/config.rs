use netspd::config::{
    default_download_path, default_ping_path, default_upload_path, EngineConfig, EngineSection,
    PingConfig, ServerEntry, Settings, TransferConfig, WallpaperKind, WallpaperSection,
};
use netspd::providers::ProviderKind;

#[test]
fn default_paths() {
    assert_eq!(default_download_path(), "garbage.php?ckSize=100");
    assert_eq!(default_upload_path(), "empty.php");
    assert_eq!(default_ping_path(), "empty.php");
}

#[test]
fn engine_defaults() {
    let p = PingConfig::default();
    assert_eq!((p.samples, p.interval_ms, p.timeout_ms), (10, 100, 3000));
    let t = TransferConfig::default();
    assert_eq!(t.duration_ms, 10_000);
    assert_eq!(t.connections, 4);
    assert_eq!(t.sample_interval_ms, 100);
    assert_eq!(t.upload_chunk_bytes, 2 * 1024 * 1024);
    assert_eq!(t.connect_timeout_ms, 15_000);
    assert_eq!(t.lead_in_ms, 1200);
    assert!(EngineConfig::default().ip_family.is_none());
    let e = EngineSection::default();
    assert_eq!(
        (e.ping_samples, e.ping_interval_ms, e.duration_secs, e.connections, e.timeout_secs, e.upload_chunk_kb),
        (10, 100, 10, 4, 15, 2048)
    );
}

#[test]
fn settings_defaults() {
    let s = Settings::default();
    assert_eq!(s.theme, "default");
    assert_eq!(s.refresh_rate, 30);
    assert_eq!(s.provider, ProviderKind::Librespeed);
    assert!(s.repeat_interval.is_none());
    assert!(s.notify);
    assert!(s.servers.is_empty());
    assert_eq!(s.wallpaper.kind, WallpaperKind::Solid);
    assert_eq!(WallpaperKind::default(), WallpaperKind::Solid);
    let w = WallpaperSection::default();
    assert!(w.from.is_none() && w.to.is_none());
}

#[test]
fn tick_rate_from_refresh_rate() {
    let mut s = Settings::default();
    assert_eq!(s.tick_rate(), 33);
    s.refresh_rate = 0;
    assert_eq!(s.tick_rate(), 1000);
    s.refresh_rate = 500;
    assert_eq!(s.tick_rate(), 16);
    s.refresh_rate = 60;
    assert_eq!(s.tick_rate(), 16);
}

#[test]
fn default_settings_reach_engine_unchanged() {
    let c = Settings::default().engine_config();
    let d = EngineConfig::default();
    assert_eq!(c.ping.samples, d.ping.samples);
    assert_eq!(c.ping.interval_ms, d.ping.interval_ms);
    assert_eq!(c.ping.timeout_ms, d.ping.timeout_ms);
    assert_eq!(c.transfer.duration_ms, d.transfer.duration_ms);
    assert_eq!(c.transfer.connections, d.transfer.connections);
    assert_eq!(c.transfer.upload_chunk_bytes, d.transfer.upload_chunk_bytes);
    assert_eq!(c.transfer.connect_timeout_ms, d.transfer.connect_timeout_ms);
    assert_eq!(c.transfer.lead_in_ms, d.transfer.lead_in_ms);
}

#[test]
fn engine_config_clamps_values() {
    let mut s = Settings::default();
    s.engine = EngineSection {
        ping_samples: 0,
        ping_interval_ms: 100_000,
        duration_secs: 1,
        connections: 64,
        timeout_secs: 0,
        upload_chunk_kb: 1,
    };
    let c = s.engine_config();
    assert_eq!(c.ping.samples, 3);
    assert_eq!(c.ping.interval_ms, 2000);
    assert_eq!(c.transfer.duration_ms, 3000);
    assert_eq!(c.transfer.connections, 16);
    assert_eq!(c.transfer.connect_timeout_ms, 2000);
    assert_eq!(c.transfer.upload_chunk_bytes, 64 * 1024);
    s.engine.ping_samples = 1000;
    s.engine.duration_secs = 600;
    s.engine.connections = 0;
    s.engine.timeout_secs = 1000;
    s.engine.upload_chunk_kb = 100_000;
    s.engine.ping_interval_ms = 1;
    let c = s.engine_config();
    assert_eq!(c.ping.samples, 100);
    assert_eq!(c.ping.interval_ms, 10);
    assert_eq!(c.transfer.duration_ms, 60_000);
    assert_eq!(c.transfer.connections, 1);
    assert_eq!(c.transfer.connect_timeout_ms, 120_000);
    assert_eq!(c.transfer.upload_chunk_bytes, 8192 * 1024);
}

#[test]
fn overrides_replace_only_given_values() {
    let mut s = Settings::default();
    s.apply_overrides(Some(30), None);
    assert_eq!(s.engine.duration_secs, 30);
    assert_eq!(s.engine.connections, 4);
    s.apply_overrides(None, Some(8));
    assert_eq!(s.engine.duration_secs, 30);
    assert_eq!(s.engine.connections, 8);
    s.apply_overrides(None, None);
    assert_eq!((s.engine.duration_secs, s.engine.connections), (30, 8));
}

fn entry(name: &str, url: &str) -> ServerEntry {
    ServerEntry {
        name: name.to_owned(),
        url: url.to_owned(),
        download_path: default_download_path(),
        upload_path: default_upload_path(),
        ping_path: default_ping_path(),
    }
}

#[test]
fn custom_servers_skip_blank_entries() {
    let mut s = Settings::default();
    s.servers = vec![entry(" Home ", "192.168.1.10:8080/"), entry("", "x"), entry("Lab", "   ")];
    let servers = s.custom_servers();
    assert_eq!(servers.len(), 1);
    assert_eq!(servers[0].name, "Home");
    assert_eq!(servers[0].endpoints.download, "https://192.168.1.10:8080/garbage.php?ckSize=100");
    assert_eq!(servers[0].description, "192.168.1.10:8080");
}
