use netspd::config::Settings;
use netspd::models::{Server, TestPhase};
use netspd::state::{
    first_matching, needs_full_clear, notice_visible, sorted_unique_names, AppState, EngineEvent,
    EventEffect, PingView, Screen, TransferView, MAX_FAILOVER, MIN_SPLASH_MS,
};

fn server(name: &str) -> Server {
    Server::from_base(name, &format!("{}.example/", name.to_lowercase()), "d", "u", "p")
}

fn state() -> AppState {
    AppState::new(
        Settings::default(),
        vec!["Default".to_owned(), "Nord".to_owned(), "Dracula".to_owned()],
        "LibreSpeed",
    )
}

#[test]
fn overlays_and_animation() {
    for s in [Screen::Help, Screen::Settings, Screen::ServerSelect, Screen::ThemeSelect, Screen::Trends] {
        assert!(s.is_overlay());
        assert!(!s.is_animated());
    }
    for s in [Screen::Splash, Screen::Testing, Screen::Results, Screen::Error] {
        assert!(!s.is_overlay());
    }
    assert!(Screen::Splash.is_animated());
    assert!(Screen::Testing.is_animated());
    assert!(!Screen::Results.is_animated());
}

#[test]
fn new_state_starts_on_splash() {
    let s = state();
    assert_eq!(s.screen, Screen::Splash);
    assert_eq!(s.return_to, Screen::Splash);
    assert!(s.servers_loading);
    assert!(!s.testing);
    assert_eq!(s.theme_index, 0);
    assert!(s.current_server().is_none());
    assert_eq!(s.server_name(), "—");
    let mut settings = Settings::default();
    settings.theme = "DRACULA".to_owned();
    let s = AppState::new(settings, vec!["Default".to_owned(), "Dracula".to_owned()], "x");
    assert_eq!(s.theme_index, 1);
    assert_eq!(s.theme_cursor, 1);
}

#[test]
fn redraw_flag_is_consumed() {
    let mut s = state();
    assert!(s.take_redraw());
    assert!(!s.take_redraw());
    s.request_redraw();
    assert!(s.take_redraw());
}

#[test]
fn tick_wraps_and_requests_redraw_when_animated() {
    let mut s = state();
    s.take_redraw();
    s.on_tick();
    assert_eq!(s.tick, 1);
    assert!(s.take_redraw());
    s.screen = Screen::Results;
    s.on_tick();
    assert!(!s.take_redraw());
    s.repeat_every_ms = Some(60_000);
    s.on_tick();
    assert!(s.take_redraw());
    s.tick = u64::MAX;
    s.on_tick();
    assert_eq!(s.tick, 0);
}

#[test]
fn servers_applied_with_preferred_selection() {
    let mut s = state();
    s.preferred_server = Some("OSLO".to_owned());
    s.apply_servers(Ok(vec![server("Paris"), server("Oslo"), server("Rome")]));
    assert!(!s.servers_loading);
    assert_eq!(s.server_index, 1);
    assert_eq!(s.server_cursor, 1);
    assert_eq!(s.server_name(), "Oslo");
    let mut s = state();
    s.preferred_server = Some("nowhere".to_owned());
    s.apply_servers(Ok(vec![server("Paris"), server("Oslo")]));
    assert_eq!(s.server_index, 0);
}

#[test]
fn discovery_failure_shows_error() {
    let mut s = state();
    s.apply_servers(Err("offline".to_owned()));
    assert_eq!(s.screen, Screen::Error);
    assert_eq!(s.error.as_deref(), Some("offline"));
    assert!(!s.servers_loading);
}

#[test]
fn first_matching_finds_first() {
    let servers = vec![server("Paris"), server("Oslo"), server("Osaka")];
    assert_eq!(first_matching(&servers, "os"), 1);
    assert_eq!(first_matching(&servers, "zz"), 3);
}

#[test]
fn engine_events_drive_screens() {
    let mut s = state();
    s.apply_servers(Ok(vec![server("Paris")]));
    s.begin_test();
    assert!(s.testing);
    assert_eq!(s.screen, Screen::Testing);
    s.apply_engine_event(EngineEvent::PhaseStarted { phase: TestPhase::Download });
    assert_eq!(s.phase, Some(TestPhase::Download));
    s.screen = Screen::Help;
    s.apply_engine_event(EngineEvent::Finished);
    assert_eq!(s.screen, Screen::Help);
    assert!(s.has_report);
    assert!(!s.testing);
    assert!(s.phase.is_none());
    s.apply_engine_event(EngineEvent::Failed { message: "boom".to_owned() });
    assert_eq!(s.screen, Screen::Error);
    assert_eq!(s.error.as_deref(), Some("boom"));
    s.reset_test();
    assert!(s.error.is_none());
    assert!(!s.has_report);
}

#[test]
fn ping_progress_changes_nothing() {
    let mut s = state();
    s.take_redraw();
    s.apply_engine_event(EngineEvent::Progress { phase: TestPhase::Ping, bytes_transferred: 5, eta_ms: 7 });
    assert!(!s.take_redraw());
    s.apply_engine_event(EngineEvent::PingSample { sequence: 1 });
    assert!(s.take_redraw());
}

#[test]
fn repeat_countdown() {
    let mut s = state();
    assert_eq!(s.repeat_remaining(Some(10)), None);
    s.repeat_every_ms = Some(60_000);
    assert_eq!(s.repeat_remaining(None), None);
    assert_eq!(s.repeat_remaining(Some(10_000)), Some(50_000));
    assert_eq!(s.repeat_remaining(Some(90_000)), Some(0));
    s.screen = Screen::Results;
    assert!(s.repeat_due(Some(60_000)));
    assert!(!s.repeat_due(Some(59_999)));
    s.screen = Screen::Help;
    assert!(!s.repeat_due(Some(60_000)));
}

#[test]
fn splash_leaves_once_ready() {
    let mut s = state();
    assert!(!s.splash_done(MIN_SPLASH_MS));
    s.apply_servers(Ok(vec![server("Paris")]));
    assert!(!s.splash_done(MIN_SPLASH_MS - 1));
    assert!(s.splash_done(MIN_SPLASH_MS));
    s.begin_test();
    assert!(!s.splash_done(MIN_SPLASH_MS));
}

#[test]
fn failover_moves_to_next_server() {
    let mut s = state();
    s.apply_servers(Ok(vec![server("A"), server("B"), server("C")]));
    assert!(s.failover(0));
    assert_eq!(s.server_index, 1);
    assert_eq!(s.server_cursor, 1);
    assert!(!s.failover(MAX_FAILOVER));
    assert!(s.failover(1));
    assert_eq!(s.server_index, 2);
    assert!(!s.failover(0));
    assert_eq!(s.server_index, 2);
    let mut pinned = state();
    pinned.preferred_server = Some("a".to_owned());
    pinned.apply_servers(Ok(vec![server("A"), server("B")]));
    assert!(!pinned.failover(0));
}

#[test]
fn switching_provider_forgets_servers() {
    let mut s = state();
    s.apply_servers(Ok(vec![server("A"), server("B")]));
    s.server_index = 1;
    s.client_info = Some("1.2.3.4".to_owned());
    s.switch_provider("Ookla");
    assert_eq!(s.provider_name, "Ookla");
    assert!(s.servers.is_empty());
    assert_eq!(s.server_index, 0);
    assert!(s.client_info.is_none());
    assert!(s.servers_loading);
    assert!(!s.testing);
}

#[test]
fn full_clear_after_testing() {
    assert!(needs_full_clear(Some(Screen::Testing), Screen::Results));
    assert!(needs_full_clear(Some(Screen::Testing), Screen::Error));
    assert!(!needs_full_clear(Some(Screen::Testing), Screen::Help));
    assert!(!needs_full_clear(Some(Screen::Testing), Screen::Testing));
    assert!(!needs_full_clear(Some(Screen::Results), Screen::Splash));
    assert!(!needs_full_clear(None, Screen::Results));
}

#[test]
fn notices_expire_after_three_seconds() {
    assert!(notice_visible(0));
    assert!(notice_visible(2999));
    assert!(!notice_visible(3000));
}

#[test]
fn trend_servers_are_sorted_and_unique() {
    let names = vec!["b".to_owned(), "a".to_owned(), "b".to_owned(), "c".to_owned(), "a".to_owned()];
    assert_eq!(sorted_unique_names(&names), vec!["a", "b", "c"]);
    let mut s = state();
    s.trend_names = names;
    assert_eq!(s.trend_servers(), vec!["a", "b", "c"]);
    assert_eq!(s.filtered_trends(), vec![0, 1, 2, 3, 4]);
    s.cycle_trends_filter(1);
    assert_eq!(s.trends_filter, 1);
    assert_eq!(s.filtered_trends(), vec![1, 4]);
    s.cycle_trends_filter(1);
    assert_eq!(s.filtered_trends(), vec![0, 2]);
    s.cycle_trends_filter(-3);
    assert_eq!(s.trends_filter, 3);
    assert_eq!(s.filtered_trends(), vec![3]);
    s.cycle_trends_filter(1);
    assert_eq!(s.trends_filter, 0);
}

#[test]
fn cycling_without_trends_does_nothing() {
    let mut s = state();
    s.cycle_trends_filter(1);
    assert_eq!(s.trends_filter, 0);
    assert!(s.filtered_trends().is_empty());
}

#[test]
fn settings_rows_adjust_within_clamps() {
    let mut s = state();
    s.settings_cursor = 0;
    s.adjust_setting(1);
    assert_eq!(s.theme_index, 1);
    assert_eq!(s.settings.theme, "nord");
    s.adjust_setting(-1);
    s.adjust_setting(-1);
    assert_eq!(s.theme_index, 2);
    assert_eq!(s.settings.theme, "dracula");
    s.settings_cursor = 1;
    s.adjust_setting(1);
    assert_eq!(s.settings.refresh_rate, 35);
    s.settings.refresh_rate = 60;
    s.adjust_setting(1);
    assert_eq!(s.settings.refresh_rate, 60);
    s.settings.refresh_rate = 7;
    s.adjust_setting(-1);
    assert_eq!(s.settings.refresh_rate, 5);
    s.settings.refresh_rate = 0;
    s.adjust_setting(1);
    assert_eq!(s.settings.refresh_rate, 5);
    s.settings.refresh_rate = 200;
    s.adjust_setting(-1);
    assert_eq!(s.settings.refresh_rate, 60);
    s.settings_cursor = 3;
    s.adjust_setting(-1);
    assert_eq!(s.settings.engine.ping_samples, 9);
    s.settings_cursor = 4;
    s.settings.engine.duration_secs = 60;
    s.adjust_setting(1);
    assert_eq!(s.settings.engine.duration_secs, 60);
    s.settings.engine.duration_secs = 100;
    s.adjust_setting(-1);
    assert_eq!(s.settings.engine.duration_secs, 60);
    s.settings.engine.duration_secs = 1;
    s.adjust_setting(1);
    assert_eq!(s.settings.engine.duration_secs, 3);
    s.settings_cursor = 5;
    s.settings.engine.connections = 1;
    s.adjust_setting(-1);
    assert_eq!(s.settings.engine.connections, 1);
    s.settings_cursor = 6;
    s.adjust_setting(1);
    assert_eq!(s.settings.engine.timeout_secs, 16);
    s.settings_cursor = 7;
    s.adjust_setting(1);
    assert_eq!(s.settings.engine.upload_chunk_kb, 2048 + 64);
    s.settings.engine.upload_chunk_kb = 100;
    s.adjust_setting(-1);
    assert_eq!(s.settings.engine.upload_chunk_kb, 64);
}

#[test]
fn engine_events_fill_the_views() {
    let mut s = state();
    s.apply_servers(Ok(vec![server("Paris")]));
    s.begin_test();
    s.apply_engine_event(EngineEvent::PingSample { sequence: 3 });
    assert_eq!(s.ping, PingView { samples_done: 3, finished: false });
    s.apply_engine_event(EngineEvent::PingFinished);
    assert!(s.ping.finished);
    s.apply_engine_event(EngineEvent::Progress { phase: TestPhase::Download, bytes_transferred: 1000, eta_ms: 900 });
    assert_eq!(s.download, TransferView { bytes: 1000, eta_ms: 900, finished: false });
    assert_eq!(s.upload, TransferView::new());
    s.apply_engine_event(EngineEvent::TransferFinished { phase: TestPhase::Download });
    assert!(s.download.finished);
    s.apply_engine_event(EngineEvent::Progress { phase: TestPhase::Upload, bytes_transferred: 5, eta_ms: 1 });
    assert_eq!(s.upload.bytes, 5);
    assert_eq!(s.download.bytes, 1000);
    s.apply_engine_event(EngineEvent::TransferFinished { phase: TestPhase::Ping });
    assert!(!s.upload.finished);
    s.begin_test();
    assert_eq!(s.ping, PingView::new());
    assert_eq!(s.download, TransferView::new());
    assert_eq!(s.upload, TransferView::new());
}

#[test]
fn failures_fail_over_before_showing_an_error() {
    let mut s = state();
    s.apply_servers(Ok(vec![server("A"), server("B"), server("C")]));
    s.begin_test();
    let mut attempts = 0;
    let fail = || EngineEvent::Failed { message: "boom".to_owned() };
    assert_eq!(s.on_engine_event(&mut attempts, fail()), EventEffect::Retry);
    assert_eq!((attempts, s.server_index), (1, 1));
    assert_eq!(s.screen, Screen::Testing);
    assert_eq!(s.on_engine_event(&mut attempts, fail()), EventEffect::Retry);
    assert_eq!((attempts, s.server_index), (2, 2));
    assert_eq!(s.on_engine_event(&mut attempts, fail()), EventEffect::Applied);
    assert_eq!(s.screen, Screen::Error);
    assert_eq!(attempts, 2);
    s.begin_test();
    assert_eq!(s.on_engine_event(&mut attempts, EngineEvent::Finished), EventEffect::Completed);
    assert_eq!(attempts, 0);
    assert!(s.has_report);
    assert_eq!(s.on_engine_event(&mut attempts, EngineEvent::PingFinished), EventEffect::Applied);
}

#[test]
fn notices_are_shown_then_expire() {
    let mut s = state();
    assert_eq!(s.notice(0), None);
    s.take_redraw();
    s.set_notice("saved".to_owned());
    assert!(s.take_redraw());
    assert_eq!(s.notice(100), Some("saved"));
    assert_eq!(s.notice(3000), None);
    s.expire_notice(2999);
    assert_eq!(s.notice.as_deref(), Some("saved"));
    s.expire_notice(3000);
    assert!(s.notice.is_none());
    assert!(s.take_redraw());
}
