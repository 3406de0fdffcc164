use netspd::models::{host_of, join, normalize_base, BufferbloatGrade, Server, TestPhase};

#[test]
fn phase_labels() {
    assert_eq!(TestPhase::Ping.label(), "Ping");
    assert_eq!(TestPhase::Download.label(), "Download");
    assert_eq!(TestPhase::Upload.label(), "Upload");
}

#[test]
fn phases_run_ping_download_upload() {
    assert_eq!(TestPhase::Ping.next(), Some(TestPhase::Download));
    assert_eq!(TestPhase::Download.next(), Some(TestPhase::Upload));
    assert_eq!(TestPhase::Upload.next(), None);
}

#[test]
fn bufferbloat_labels() {
    assert_eq!(BufferbloatGrade::APlus.label(), "A+");
    assert_eq!(BufferbloatGrade::A.label(), "A");
    assert_eq!(BufferbloatGrade::B.label(), "B");
    assert_eq!(BufferbloatGrade::C.label(), "C");
    assert_eq!(BufferbloatGrade::D.label(), "D");
    assert_eq!(BufferbloatGrade::F.label(), "F");
}

#[test]
fn normalize_base_adds_scheme_and_slash() {
    assert_eq!(normalize_base("example.com/backend"), "https://example.com/backend/");
    assert_eq!(normalize_base("//host/x"), "https://host/x/");
    assert_eq!(normalize_base("http://a/"), "http://a/");
    assert_eq!(normalize_base("  https://a  "), "https://a/");
}

#[test]
fn normalize_base_is_idempotent() {
    for base in ["example.com/backend", "//host/x", "http://a", " https://b/c/ "] {
        let once = normalize_base(base);
        assert_eq!(normalize_base(&once), once);
        assert!(once.ends_with('/'));
    }
}

#[test]
fn join_drops_leading_slashes() {
    assert_eq!(join("https://a/b/", "/empty.php"), "https://a/b/empty.php");
    assert_eq!(join("https://a/b/", "empty.php"), "https://a/b/empty.php");
    assert_eq!(join("https://a/b/", "//x"), "https://a/b/x");
}

#[test]
fn host_of_strips_scheme_and_path() {
    assert_eq!(host_of("https://a.example/b/"), "a.example");
    assert_eq!(host_of("http://b.example:8080/x"), "b.example:8080");
    assert_eq!(host_of("plain/path"), "plain");
}

#[test]
fn server_from_base_resolves_endpoints() {
    let s = Server::from_base(
        "Frankfurt",
        "fra.speedtest.clouvider.net/backend",
        "garbage.php?ckSize=100",
        "empty.php",
        "/empty.php",
    );
    assert_eq!(s.name, "Frankfurt");
    assert_eq!(s.description, "fra.speedtest.clouvider.net");
    assert_eq!(s.endpoints.ping, "https://fra.speedtest.clouvider.net/backend/empty.php");
    assert_eq!(
        s.endpoints.download,
        "https://fra.speedtest.clouvider.net/backend/garbage.php?ckSize=100"
    );
    assert_eq!(s.endpoints.upload, "https://fra.speedtest.clouvider.net/backend/empty.php");
}

#[test]
fn server_matches_name_or_host_ignoring_case() {
    let s = Server::from_base("Frankfurt, Germany", "fra.example.net/", "d", "u", "p");
    assert!(s.matches("frank"));
    assert!(s.matches("GERMANY"));
    assert!(s.matches("FRA.EXAMPLE"));
    assert!(!s.matches("london"));
    assert!(s.matches(""));
}
