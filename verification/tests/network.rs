use netspd::errors::EngineError;
use netspd::models::Server;
use netspd::network::{
    transferred, upload_sizes, worker_count,
    build_payload, cache_busted, client_info_text, host_of_url, info_url, loaded_latency_url,
    nearest_first, preferred_address, reported_loss, require_servers, xorshift_bytes,
    AddressKind, UPLOAD_SEED,
};

fn server(name: &str) -> Server {
    Server::from_base(name, "h.example/", "d", "u", "p")
}

#[test]
fn cache_busted_appends_sequence() {
    assert_eq!(cache_busted("https://a/p", 3), "https://a/p?r=3");
    assert_eq!(cache_busted("https://a/p?x=1", 10), "https://a/p?x=1&r=10");
    assert_eq!(cache_busted("u", 0), "u?r=0");
}

#[test]
fn loaded_latency_url_appends_bloat() {
    assert_eq!(loaded_latency_url("u?x=1", 2), "u?x=1&bloat=2");
    assert_eq!(loaded_latency_url("https://h/empty.php", 4294967295), "https://h/empty.php?bloat=4294967295");
}

#[test]
fn host_of_url_examples() {
    assert_eq!(
        host_of_url("https://host.example.com/backend/empty.php"),
        Some("host.example.com".to_owned())
    );
    assert_eq!(host_of_url("http://h:8080/x"), Some("h".to_owned()));
    assert_eq!(host_of_url("https://h?x=1"), Some("h".to_owned()));
    assert_eq!(host_of_url("https://[::1]/x"), Some("[::1]".to_owned()));
    assert_eq!(host_of_url("https://h:abc/"), Some("h:abc".to_owned()));
    assert_eq!(host_of_url("ftp://x/"), None);
    assert_eq!(host_of_url("https:///x"), None);
    assert_eq!(host_of_url("https://:80/x"), None);
}

#[test]
fn info_url_uses_backend_directory() {
    assert_eq!(
        info_url("https://h/backend/empty.php?x=1/2"),
        "https://h/backend/getIP.php?isp=true"
    );
    assert_eq!(info_url("nodir"), "/getIP.php?isp=true");
}

#[test]
fn client_info_prefers_processed_string() {
    assert_eq!(
        client_info_text("{\"x\":1}", Some("  1.2.3.4 - ISP  ")),
        Some("1.2.3.4 - ISP".to_owned())
    );
    assert_eq!(client_info_text(" raw body \n", None), Some("raw body".to_owned()));
    assert_eq!(client_info_text("   ", None), None);
    let long: String = "x".repeat(100);
    assert_eq!(client_info_text(&long, None), Some("x".repeat(64)));
    let too_long: String = "x".repeat(257);
    assert_eq!(client_info_text(&too_long, None), None);
    let wide: String = "é".repeat(129);
    assert_eq!(client_info_text(&wide, None), None);
    let fits: String = "é".repeat(128);
    assert_eq!(client_info_text(&fits, None), Some("é".repeat(64)));
}

#[test]
fn nearest_first_sorts_by_latency() {
    let probed = vec![(30, server("c")), (10, server("a")), (20, server("b")), (10, server("d"))];
    let sorted = nearest_first(probed);
    let keys: Vec<u64> = sorted.iter().map(|(k, _)| *k).collect();
    assert_eq!(keys, vec![10, 10, 20, 30]);
    let mut names: Vec<String> = sorted.iter().map(|(_, s)| s.name.clone()).collect();
    assert_eq!(names[2], "b");
    assert_eq!(names[3], "c");
    names.sort();
    assert_eq!(names, vec!["a", "b", "c", "d"]);
    assert!(nearest_first(Vec::new()).is_empty());
}

#[test]
fn require_servers_rejects_empty_lists() {
    assert_eq!(require_servers(Vec::new()).err(), Some(EngineError::NoServers));
    let kept = require_servers(vec![server("a")]).unwrap();
    assert_eq!(kept.len(), 1);
}

#[test]
fn icmp_loss_is_not_reported_at_total_loss() {
    assert_eq!(reported_loss(0), Some(0));
    assert_eq!(reported_loss(3), Some(3));
    assert_eq!(reported_loss(19), Some(19));
    assert_eq!(reported_loss(20), None);
}

#[test]
fn icmp_prefers_ipv4() {
    assert_eq!(preferred_address(&[AddressKind::V6, AddressKind::V4, AddressKind::V4]), Some(1));
    assert_eq!(preferred_address(&[AddressKind::V6, AddressKind::V6]), Some(0));
    assert_eq!(preferred_address(&[]), None);
}

fn reference_stream(seed: u64, len: usize) -> Vec<u8> {
    let mut data = vec![0u8; len];
    let mut state = seed;
    for slot in &mut data {
        state ^= state << 13;
        state ^= state >> 7;
        state ^= state << 17;
        *slot = (state & 0xff) as u8;
    }
    data
}

#[test]
fn payload_is_the_xorshift_stream() {
    let payload = build_payload(4096);
    assert_eq!(payload.len(), 4096);
    assert_eq!(payload, reference_stream(UPLOAD_SEED, 4096));
    assert!(build_payload(0).is_empty());
    assert_eq!(xorshift_bytes(1, 3), reference_stream(1, 3));
}

#[test]
fn shorter_payload_is_a_prefix() {
    let short = build_payload(100);
    let long = build_payload(1000);
    assert_eq!(&long[..100], &short[..]);
}

#[test]
fn transfer_sizes() {
    assert_eq!(worker_count(0), 1);
    assert_eq!(worker_count(4), 4);
    assert_eq!(upload_sizes(2 * 1024 * 1024), (2 * 1024 * 1024, 128 * 1024));
    assert_eq!(upload_sizes(1000), (64 * 1024, 64 * 1024));
    assert_eq!(upload_sizes(100 * 1024), (100 * 1024, 100 * 1024));
    assert_eq!(transferred(5), Ok(5));
    assert_eq!(
        transferred(0),
        Err(EngineError::InvalidResponse("server transferred no data".to_owned()))
    );
}
