use netspd::errors::EngineError;
use netspd::models::Server;
use netspd::providers::{
    remote_or_builtin,
    builtin_servers, fast_servers, librespeed_servers, ookla_servers, server_for_host,
    with_download_query, with_range, CustomProvider, FastLocation, FastTarget, LibreSpeedEntry,
    OoklaEntry, ProviderKind, DOWNLOAD_RANGE_BYTES,
};

#[test]
fn provider_labels_and_descriptions() {
    assert_eq!(ProviderKind::Librespeed.label(), "LibreSpeed");
    assert_eq!(ProviderKind::Ookla.label(), "Ookla");
    assert_eq!(ProviderKind::Fast.label(), "Fast.com");
    assert_eq!(ProviderKind::Custom.label(), "Custom");
    for kind in ProviderKind::all() {
        assert!(!kind.description().is_empty());
    }
    assert_eq!(ProviderKind::default(), ProviderKind::Librespeed);
}

#[test]
fn provider_parse_ignores_case() {
    assert_eq!(ProviderKind::parse("LIBRESPEED"), Ok(ProviderKind::Librespeed));
    assert_eq!(ProviderKind::parse("Speedtest"), Ok(ProviderKind::Ookla));
    assert_eq!(ProviderKind::parse("ookla"), Ok(ProviderKind::Ookla));
    assert_eq!(ProviderKind::parse("Fast.com"), Ok(ProviderKind::Fast));
    assert_eq!(ProviderKind::parse("fast"), Ok(ProviderKind::Fast));
    assert_eq!(ProviderKind::parse("custom"), Ok(ProviderKind::Custom));
    assert_eq!("Custom".parse::<ProviderKind>(), Ok(ProviderKind::Custom));
}

#[test]
fn provider_parse_rejects_unknown_words() {
    assert_eq!(
        ProviderKind::parse("Nope"),
        Err("unknown provider \"nope\"; expected librespeed, ookla, fast or custom".to_owned())
    );
    assert_eq!(
        ProviderKind::from_lowercase("a\"b"),
        Err("unknown provider \"a\\\"b\"; expected librespeed, ookla, fast or custom".to_owned())
    );
}

#[test]
fn every_label_parses_back() {
    for kind in ProviderKind::all() {
        let word = match kind {
            ProviderKind::Fast => "fast".to_owned(),
            other => other.label().to_owned(),
        };
        assert_eq!(ProviderKind::parse(&word), Ok(kind));
    }
}

#[test]
fn custom_provider_needs_servers() {
    let err = CustomProvider::new(Vec::new()).err().unwrap();
    assert_eq!(
        err,
        EngineError::InvalidResponse(
            "provider \"custom\" requires at least one [[servers]] entry in config.toml".to_owned()
        )
    );
    let s = Server::from_base("Home", "192.168.1.2:8080/", "garbage.php", "empty.php", "empty.php");
    let p = CustomProvider::new(vec![s]).ok().unwrap();
    assert_eq!(p.servers().len(), 1);
    assert_eq!(p.servers()[0].name, "Home");
}

#[test]
fn download_query_is_added_once() {
    assert_eq!(with_download_query("garbage.php"), "garbage.php?ckSize=100");
    assert_eq!(with_download_query("garbage.php?x=1"), "garbage.php?x=1&ckSize=100");
    assert_eq!(with_download_query("garbage.php?ckSize=20"), "garbage.php?ckSize=20");
    let once = with_download_query("garbage.php");
    assert_eq!(with_download_query(&once), once);
}

#[test]
fn builtin_servers_are_the_four_clouvider_backends() {
    let servers = builtin_servers();
    assert_eq!(servers.len(), 4);
    assert_eq!(servers[0].name, "Frankfurt, Germany (Clouvider)");
    assert_eq!(servers[0].description, "fra.speedtest.clouvider.net");
    assert_eq!(
        servers[0].endpoints.download,
        "https://fra.speedtest.clouvider.net/backend/garbage.php?ckSize=100"
    );
    assert_eq!(servers[3].endpoints.ping, "https://la.speedtest.clouvider.net/backend/empty.php");
}

fn entry(name: Option<&str>, server: Option<&str>) -> LibreSpeedEntry {
    LibreSpeedEntry {
        name: name.map(str::to_owned),
        server: server.map(str::to_owned),
        dl_url: Some("garbage.php".to_owned()),
        ul_url: Some("empty.php".to_owned()),
        ping_url: Some("empty.php".to_owned()),
    }
}

#[test]
fn librespeed_entries_are_validated() {
    let entries = vec![
        entry(Some("  Paris "), Some("//paris.example/backend")),
        entry(None, Some("x.example")),
        entry(Some("   "), Some("y.example")),
        entry(Some("Oslo"), Some("")),
        entry(Some("Rome"), Some("https://rome.example/")),
    ];
    let servers = librespeed_servers(&entries);
    assert_eq!(servers.len(), 2);
    assert_eq!(servers[0].name, "Paris");
    assert_eq!(servers[0].endpoints.download, "https://paris.example/backend/garbage.php?ckSize=100");
    assert_eq!(servers[1].name, "Rome");
    assert_eq!(servers[1].endpoints.upload, "https://rome.example/empty.php");
}

#[test]
fn ookla_servers_from_hosts() {
    let s = server_for_host("Berlin (Acme)", "speed.acme.de:8080");
    assert_eq!(s.name, "Berlin (Acme)");
    assert_eq!(s.description, "speed.acme.de");
    assert_eq!(s.endpoints.ping, "https://speed.acme.de:8080/speedtest/latency.txt");
    assert_eq!(s.endpoints.download, "https://speed.acme.de:8080/speedtest/random4000x4000.jpg");
    assert_eq!(s.endpoints.upload, "https://speed.acme.de:8080/speedtest/upload.php");

    let entries = vec![
        OoklaEntry {
            host: Some(" a.example:8080 ".to_owned()),
            name: Some("Berlin".to_owned()),
            sponsor: Some(" Acme ".to_owned()),
        },
        OoklaEntry { host: Some("b.example:8080".to_owned()), name: Some("Bonn".to_owned()), sponsor: None },
        OoklaEntry { host: None, name: Some("X".to_owned()), sponsor: None },
        OoklaEntry { host: Some("c.example".to_owned()), name: Some(" ".to_owned()), sponsor: None },
        OoklaEntry {
            host: Some("d.example".to_owned()),
            name: Some("Kiel".to_owned()),
            sponsor: Some("  ".to_owned()),
        },
    ];
    let servers = ookla_servers(&entries);
    assert_eq!(servers.len(), 3);
    assert_eq!(servers[0].name, "Berlin (Acme)");
    assert_eq!(servers[0].description, "a.example");
    assert_eq!(servers[1].name, "Bonn");
    assert_eq!(servers[2].name, "Kiel");
}

#[test]
fn fast_range_urls() {
    assert_eq!(
        with_range("https://ipv4-c1.oca.nflxvideo.net/speedtest?c=us&e=1", 26214400),
        "https://ipv4-c1.oca.nflxvideo.net/speedtest/range/0-26214400?c=us&e=1"
    );
    assert_eq!(with_range("https://h/speedtest", 0), "https://h/speedtest/range/0-0");
    assert_eq!(DOWNLOAD_RANGE_BYTES, 26214400);
}

#[test]
fn fast_targets_become_servers() {
    let targets = vec![
        FastTarget {
            url: Some("https://a.nflx.net/speedtest?x=1".to_owned()),
            location: Some(FastLocation { city: Some("Paris".to_owned()), country: Some("France".to_owned()) }),
        },
        FastTarget { url: Some("http://insecure/x".to_owned()), location: None },
        FastTarget { url: None, location: None },
        FastTarget { url: Some("https://b.nflx.net/speedtest".to_owned()), location: None },
        FastTarget { url: Some("https:///nohost".to_owned()), location: None },
    ];
    let servers = fast_servers(&targets);
    assert_eq!(servers.len(), 2);
    assert_eq!(servers[0].name, "Fast.com — Paris, France");
    assert_eq!(servers[0].description, "a.nflx.net");
    assert_eq!(servers[0].endpoints.ping, "https://a.nflx.net/speedtest/range/0-0?x=1");
    assert_eq!(servers[0].endpoints.download, "https://a.nflx.net/speedtest/range/0-26214400?x=1");
    assert_eq!(servers[1].name, "Fast.com — b.nflx.net");
}

#[test]
fn librespeed_falls_back_to_builtin_servers() {
    let remote = vec![Server::from_base("Remote", "r.example/", "d", "u", "p")];
    assert_eq!(remote_or_builtin(Ok(remote)).len(), 1);
    let fallback = remote_or_builtin(Ok(Vec::new()));
    assert_eq!(fallback.len(), 4);
    assert_eq!(fallback[0].name, "Frankfurt, Germany (Clouvider)");
    assert_eq!(remote_or_builtin(Err(EngineError::NoServers)).len(), 4);
}
