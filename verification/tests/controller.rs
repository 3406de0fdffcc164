use netspd::config::Settings;
use netspd::controller::{handle, handles, map_key, map_mouse, Action, Command, Key, Mouse};
use netspd::models::Server;
use netspd::state::{AppState, Screen};

fn server(name: &str) -> Server {
    Server::from_base(name, "h.example/", "d", "u", "p")
}

fn state() -> AppState {
    let mut s = AppState::new(Settings::default(), vec!["Default".to_owned(), "Nord".to_owned()], "LibreSpeed");
    s.apply_servers(Ok(vec![server("A"), server("B"), server("C")]));
    s.screen = Screen::Results;
    s
}

fn run(s: &mut AppState, action: Action) -> Command {
    assert!(handles(s, action));
    handle(s, action)
}

#[test]
fn keys_map_to_actions() {
    assert_eq!(map_key(Screen::Results, Key::Char('q')), Some(Action::Quit));
    assert_eq!(map_key(Screen::Results, Key::Char('r')), Some(Action::Restart));
    assert_eq!(map_key(Screen::Results, Key::Char('s')), Some(Action::ShowServers));
    assert_eq!(map_key(Screen::Results, Key::Char('t')), Some(Action::ShowThemes));
    assert_eq!(map_key(Screen::Results, Key::Char('c')), Some(Action::ShowSettings));
    assert_eq!(map_key(Screen::Results, Key::Char('?')), Some(Action::ShowHelp));
    assert_eq!(map_key(Screen::Results, Key::Char('g')), Some(Action::ShowTrends));
    assert_eq!(map_key(Screen::Results, Key::Char('y')), Some(Action::Share));
    assert_eq!(map_key(Screen::Results, Key::Char('k')), Some(Action::MoveUp));
    assert_eq!(map_key(Screen::Results, Key::Char('j')), Some(Action::MoveDown));
    assert_eq!(map_key(Screen::Results, Key::Char('h')), Some(Action::MoveLeft));
    assert_eq!(map_key(Screen::Results, Key::Char('l')), Some(Action::MoveRight));
    assert_eq!(map_key(Screen::Settings, Key::Char('w')), Some(Action::SaveConfig));
    assert_eq!(map_key(Screen::Results, Key::Char('w')), None);
    assert_eq!(map_key(Screen::Results, Key::Char('x')), None);
    assert_eq!(map_key(Screen::Help, Key::Esc), Some(Action::Back));
    assert_eq!(map_key(Screen::Results, Key::Esc), Some(Action::Quit));
    assert_eq!(map_key(Screen::Results, Key::Enter), Some(Action::Confirm));
    assert_eq!(map_key(Screen::Results, Key::Up), Some(Action::MoveUp));
    assert_eq!(map_key(Screen::Results, Key::Other), None);
}

#[test]
fn mouse_only_on_lists() {
    assert_eq!(map_mouse(Screen::ServerSelect, Mouse::ScrollUp), Some(Action::MoveUp));
    assert_eq!(map_mouse(Screen::ThemeSelect, Mouse::ScrollDown), Some(Action::MoveDown));
    assert_eq!(map_mouse(Screen::ServerSelect, Mouse::LeftDown), Some(Action::Confirm));
    assert_eq!(map_mouse(Screen::ServerSelect, Mouse::Other), None);
    assert_eq!(map_mouse(Screen::Results, Mouse::LeftDown), None);
}

#[test]
fn overlays_return_to_origin() {
    let mut s = state();
    assert_eq!(run(&mut s, Action::ShowHelp), Command::NoOp);
    assert_eq!(s.screen, Screen::Help);
    assert_eq!(s.return_to, Screen::Results);
    run(&mut s, Action::ShowSettings);
    assert_eq!(s.screen, Screen::Settings);
    assert_eq!(s.return_to, Screen::Results);
    assert_eq!(run(&mut s, Action::Back), Command::NoOp);
    assert_eq!(s.screen, Screen::Results);
    assert_eq!(run(&mut s, Action::Back), Command::NoOp);
    assert_eq!(s.screen, Screen::Results);
    assert!(!s.return_to.is_overlay());
}

#[test]
fn escape_backs_out_of_every_overlay() {
    for open in [Action::ShowHelp, Action::ShowSettings, Action::ShowServers, Action::ShowThemes, Action::ShowTrends] {
        let mut s = state();
        run(&mut s, open);
        let action = map_key(s.screen, Key::Esc).unwrap();
        assert_eq!(action, Action::Back);
        run(&mut s, action);
        assert_eq!(s.screen, Screen::Results);
    }
}

#[test]
fn commands() {
    let mut s = state();
    assert_eq!(run(&mut s, Action::Quit), Command::Quit);
    assert_eq!(run(&mut s, Action::Restart), Command::StartTest);
    assert_eq!(run(&mut s, Action::ShowTrends), Command::LoadTrends);
    assert_eq!(run(&mut s, Action::Share), Command::NoOp);
    s.has_report = true;
    assert_eq!(run(&mut s, Action::Share), Command::Share);
    assert_eq!(run(&mut s, Action::SaveConfig), Command::SaveConfig);
    let mut empty = AppState::new(Settings::default(), Vec::new(), "x");
    assert_eq!(run(&mut empty, Action::Restart), Command::NoOp);
}

#[test]
fn server_selection() {
    let mut s = state();
    s.server_index = 1;
    run(&mut s, Action::ShowServers);
    assert_eq!(s.screen, Screen::ServerSelect);
    assert_eq!(s.server_cursor, 1);
    run(&mut s, Action::MoveDown);
    run(&mut s, Action::MoveDown);
    assert_eq!(s.server_cursor, 2);
    run(&mut s, Action::MoveUp);
    assert_eq!(s.server_cursor, 1);
    assert_eq!(run(&mut s, Action::Confirm), Command::StartTest);
    assert_eq!(s.server_index, 1);
    assert_eq!(s.screen, Screen::Results);
}

#[test]
fn theme_selection() {
    let mut s = state();
    run(&mut s, Action::ShowThemes);
    assert_eq!(s.screen, Screen::ThemeSelect);
    run(&mut s, Action::MoveDown);
    run(&mut s, Action::MoveDown);
    assert_eq!(s.theme_cursor, 1);
    assert_eq!(run(&mut s, Action::Confirm), Command::NoOp);
    assert_eq!(s.theme_index, 1);
    assert_eq!(s.screen, Screen::Results);
}

#[test]
fn settings_cursor_stays_on_rows() {
    let mut s = state();
    run(&mut s, Action::ShowSettings);
    for _ in 0..20 {
        run(&mut s, Action::MoveDown);
    }
    assert_eq!(s.settings_cursor, AppState::SETTINGS_ROWS - 1);
    run(&mut s, Action::MoveLeft);
    assert_eq!(s.settings.engine.upload_chunk_kb, 2048 - 64);
    for _ in 0..20 {
        run(&mut s, Action::MoveUp);
    }
    assert_eq!(s.settings_cursor, 0);
}

#[test]
fn trends_filter_via_arrows() {
    let mut s = state();
    s.trend_names = vec!["x".to_owned(), "y".to_owned()];
    run(&mut s, Action::ShowTrends);
    run(&mut s, Action::MoveRight);
    assert_eq!(s.trends_filter, 1);
    run(&mut s, Action::MoveLeft);
    run(&mut s, Action::MoveLeft);
    assert_eq!(s.trends_filter, 2);
}

#[test]
fn handles_guards_overflow() {
    let mut s = state();
    s.screen = Screen::ServerSelect;
    s.server_cursor = usize::MAX;
    assert!(!handles(&s, Action::MoveDown));
    assert!(handles(&s, Action::MoveUp));
    s.screen = Screen::Settings;
    s.settings_cursor = 4;
    s.settings.engine.duration_secs = u64::MAX;
    assert!(!handles(&s, Action::MoveRight));
    assert!(handles(&s, Action::MoveLeft));
}
