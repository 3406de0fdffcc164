use netspd::cli::Cli;
use netspd::errors::EngineError;
use netspd::headless::{candidates, compare_count, MAX_ATTEMPTS};
use netspd::history::{csv_field, keep_last};
use netspd::metrics::Sampler;
use netspd::models::{BufferbloatGrade, Server};
use netspd::prom::{escape, labels};
use netspd::scheduler::{first_step, next_step, RunStep, StepOutcome};
use netspd::models::TestPhase;
use netspd::score::{component_bloat, CompositeScore, ScoreGrade};

fn server(name: &str) -> Server {
    Server::from_base(name, &format!("{}.example/", name.to_lowercase()), "d", "u", "p")
}

fn cli() -> Cli {
    Cli { no_tui: false, json: false, server: None, list_servers: false, duration: None, connections: None }
}

#[test]
fn headless_flags() {
    assert!(!cli().headless());
    assert!(Cli { no_tui: true, ..cli() }.headless());
    assert!(Cli { json: true, ..cli() }.headless());
    assert!(Cli { list_servers: true, ..cli() }.headless());
    assert!(!Cli { server: Some("x".to_owned()), duration: Some(5), ..cli() }.headless());
}

#[test]
fn grades_from_points() {
    assert_eq!(ScoreGrade::from_points(100), ScoreGrade::APlus);
    assert_eq!(ScoreGrade::from_points(90), ScoreGrade::APlus);
    assert_eq!(ScoreGrade::from_points(89), ScoreGrade::A);
    assert_eq!(ScoreGrade::from_points(80), ScoreGrade::A);
    assert_eq!(ScoreGrade::from_points(79), ScoreGrade::B);
    assert_eq!(ScoreGrade::from_points(70), ScoreGrade::B);
    assert_eq!(ScoreGrade::from_points(65), ScoreGrade::C);
    assert_eq!(ScoreGrade::from_points(50), ScoreGrade::D);
    assert_eq!(ScoreGrade::from_points(49), ScoreGrade::F);
    assert_eq!(ScoreGrade::from_points(0), ScoreGrade::F);
    assert_eq!(ScoreGrade::from_points(101), ScoreGrade::F);
    assert_eq!(ScoreGrade::APlus.label(), "A+");
    assert_eq!(ScoreGrade::F.label(), "F");
}

#[test]
fn grades_never_drop_as_points_rise() {
    let rank = |g: ScoreGrade| match g {
        ScoreGrade::F => 0,
        ScoreGrade::D => 1,
        ScoreGrade::C => 2,
        ScoreGrade::B => 3,
        ScoreGrade::A => 4,
        ScoreGrade::APlus => 5,
    };
    for p in 0..100u8 {
        assert!(rank(ScoreGrade::from_points(p)) <= rank(ScoreGrade::from_points(p + 1)));
    }
}

#[test]
fn composite_score_clamps() {
    let s = CompositeScore::from_rounded(87);
    assert_eq!((s.points, s.grade), (87, ScoreGrade::A));
    assert_eq!(CompositeScore::from_rounded(-5).points, 0);
    assert_eq!(CompositeScore::from_rounded(250).points, 100);
    assert_eq!(CompositeScore::from_rounded(250).grade, ScoreGrade::APlus);
}

#[test]
fn bloat_component_points() {
    assert_eq!(component_bloat(BufferbloatGrade::APlus), 100);
    assert_eq!(component_bloat(BufferbloatGrade::A), 90);
    assert_eq!(component_bloat(BufferbloatGrade::B), 75);
    assert_eq!(component_bloat(BufferbloatGrade::C), 50);
    assert_eq!(component_bloat(BufferbloatGrade::D), 25);
    assert_eq!(component_bloat(BufferbloatGrade::F), 0);
}

#[test]
fn csv_fields_quote_when_needed() {
    assert_eq!(csv_field("plain"), "plain");
    assert_eq!(csv_field("a,b"), "\"a,b\"");
    assert_eq!(csv_field("say \"hi\""), "\"say \"\"hi\"\"\"");
    assert_eq!(csv_field("two\nlines"), "\"two\nlines\"");
    assert_eq!(csv_field(""), "");
}

fn csv_unquote(f: &str) -> String {
    if f.len() >= 2 && f.starts_with('"') && f.ends_with('"') {
        f[1..f.len() - 1].replace("\"\"", "\"")
    } else {
        f.to_owned()
    }
}

#[test]
fn csv_fields_read_back() {
    for v in ["plain", "a,b", "\"", "\"\"x\"", "x\ny", "", "Frankfurt, Germany (Clouvider)"] {
        assert_eq!(csv_unquote(&csv_field(v)), v);
    }
}

#[test]
fn keep_last_keeps_newest() {
    assert_eq!(keep_last(vec![1, 2, 3, 4, 5], 2), vec![4, 5]);
    assert_eq!(keep_last(vec![1, 2], 5), vec![1, 2]);
    assert_eq!(keep_last(vec![1, 2, 3], 0), Vec::<i32>::new());
    assert_eq!(keep_last(vec![1, 2, 3], usize::MAX), vec![1, 2, 3]);
}

#[test]
fn prom_escape() {
    assert_eq!(escape("plain"), "plain");
    assert_eq!(escape("a\"b"), "a\\\"b");
    assert_eq!(escape("c:\\x"), "c:\\\\x");
    assert_eq!(escape("\\\""), "\\\\\\\"");
    let value = String::from(r#"a\b"c"#) + "\n" + "d";
    assert_eq!(escape(&value), r#"a\\b\"c\nd"#);
}

fn unescape(s: &str) -> String {
    let mut out = String::new();
    let mut chars = s.chars();
    while let Some(c) = chars.next() {
        if c == '\\' {
            match chars.next() {
                Some('n') => out.push('\n'),
                Some(n) => out.push(n),
                None => out.push(c),
            }
        } else {
            out.push(c);
        }
    }
    out
}

#[test]
fn prom_escape_reads_back() {
    for v in ["plain", "a\"b", "c:\\x", "\\\"", "\\", "\"\"\\\\", "two\nlines", "\\n", "\n\\"] {
        assert_eq!(unescape(&escape(v)), v);
    }
}

#[test]
fn prom_labels() {
    assert_eq!(labels("Paris \"1\"", "LibreSpeed"), "server=\"Paris \\\"1\\\"\",provider=\"LibreSpeed\"");
}

#[test]
fn compare_count_is_clamped() {
    assert_eq!(compare_count(0), 2);
    assert_eq!(compare_count(1), 2);
    assert_eq!(compare_count(5), 5);
    assert_eq!(compare_count(8), 8);
    assert_eq!(compare_count(100), 8);
}

#[test]
fn candidates_without_pin_are_nearest_three() {
    let servers = vec![server("A"), server("B"), server("C"), server("D")];
    let picked = candidates(servers, None).unwrap();
    assert_eq!(picked.len(), MAX_ATTEMPTS);
    assert_eq!(picked.iter().map(|s| s.name.as_str()).collect::<Vec<_>>(), vec!["A", "B", "C"]);
    let picked = candidates(vec![server("A")], None).unwrap();
    assert_eq!(picked.len(), 1);
    assert!(candidates(Vec::new(), None).unwrap().is_empty());
}

#[test]
fn candidates_with_pin() {
    let servers = vec![server("Paris"), server("Oslo"), server("Osaka")];
    let picked = candidates(servers, Some("OS")).unwrap();
    assert_eq!(picked.len(), 1);
    assert_eq!(picked[0].name, "Oslo");
    let err = candidates(vec![server("Paris")], Some("rome")).unwrap_err();
    assert_eq!(err, "no server matching \"rome\"; try --list-servers");
}

#[test]
fn error_messages() {
    assert!(EngineError::Cancelled.is_cancelled());
    assert!(!EngineError::NoServers.is_cancelled());
    assert_eq!(EngineError::Cancelled.message(), "test cancelled");
    assert_eq!(EngineError::InvalidUrl("x".to_owned()).message(), "invalid server URL: x");
    assert_eq!(EngineError::InvalidResponse("y".to_owned()).message(), "invalid server response: y");
    assert_eq!(
        EngineError::NoServers.message(),
        "no reachable speed test servers (check your connection or configured servers)"
    );
    assert_eq!(
        EngineError::NoSamples { reason: "timeout".to_owned() }.message(),
        "no measurement samples were collected: timeout"
    );
    assert_eq!(
        EngineError::no_samples(None),
        EngineError::NoSamples { reason: "no requests were attempted".to_owned() }
    );
    assert_eq!(
        EngineError::no_samples(Some("server returned HTTP 404".to_owned())),
        EngineError::NoSamples { reason: "server returned HTTP 404".to_owned() }
    );
}

#[test]
fn sampler_keeps_a_window() {
    let mut s: Sampler<u32> = Sampler::new(3);
    assert!(s.is_empty());
    assert_eq!(s.latest(), None);
    for v in 1..=5 {
        s.push(v);
    }
    assert_eq!(s.len(), 3);
    assert_eq!(s.to_vec(), vec![3, 4, 5]);
    assert_eq!(s.latest(), Some(5));
    s.clear();
    assert!(s.is_empty());
    let mut z: Sampler<u8> = Sampler::new(0);
    z.push(1);
    z.push(2);
    assert_eq!(z.to_vec(), vec![2]);
}

#[test]
fn successful_run_visits_every_phase_in_order() {
    let mut steps = vec![first_step()];
    while !matches!(steps.last(), Some(RunStep::Finished) | Some(RunStep::Aborted)) {
        let next = next_step(*steps.last().unwrap(), StepOutcome::Done, 1200);
        steps.push(next);
    }
    assert_eq!(steps.len(), 13);
    assert_eq!(steps[0], RunStep::Announce { phase: TestPhase::Ping });
    assert_eq!(steps[1], RunStep::Measure { phase: TestPhase::Ping });
    assert_eq!(steps[4], RunStep::LeadIn { phase: TestPhase::Download });
    assert_eq!(steps[10], RunStep::Publish { phase: TestPhase::Upload });
    assert_eq!(steps[11], RunStep::Assemble);
    assert_eq!(next_step(RunStep::Announce { phase: TestPhase::Upload }, StepOutcome::Done, 0),
        RunStep::Measure { phase: TestPhase::Upload });
}

#[test]
fn failures_abort_the_run() {
    assert_eq!(next_step(RunStep::Measure { phase: TestPhase::Download }, StepOutcome::Failed, 0), RunStep::Aborted);
    assert_eq!(next_step(RunStep::Aborted, StepOutcome::Done, 0), RunStep::Aborted);
    assert_eq!(next_step(RunStep::Finished, StepOutcome::Failed, 0), RunStep::Finished);
}
