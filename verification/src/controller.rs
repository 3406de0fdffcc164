//! Key decoding and action handling.
//!
//! The controller is the only place that interprets input. It mutates
//! state synchronously and returns a [`Command`] for anything that needs a
//! side effect (spawning a test, quitting), which the runtime executes.

use vstd::prelude::*;

use crate::state::{
    can_adjust, can_cycle_filter, filter_cycled, names_of, overlay, setting_adjusted, AppState,
    Screen,
};

verus! {

/// A high-level user intent, decoded from raw key events.
#[derive(Debug, Clone, Copy, PartialEq, Eq, Structural)]
pub enum Action {
    /// Exit the application.
    Quit,
    /// Restart the speed test.
    Restart,
    /// Open the help screen.
    ShowHelp,
    /// Open the settings screen.
    ShowSettings,
    /// Open the server selection screen.
    ShowServers,
    /// Open the theme selection screen.
    ShowThemes,
    /// Open the result trends screen.
    ShowTrends,
    /// Copy the last result to the clipboard.
    Share,
    /// Leave the current overlay screen.
    Back,
    /// Move the selection cursor up.
    MoveUp,
    /// Move the selection cursor down.
    MoveDown,
    /// Adjust the focused value down / cycle the filter left.
    MoveLeft,
    /// Adjust the focused value up / cycle the filter right.
    MoveRight,
    /// Confirm the current selection.
    Confirm,
    /// Write the current settings to the config file.
    SaveConfig,
}

/// A side effect the controller asks the runtime to perform.
///
/// The controller itself only mutates state; anything that spawns tasks or
/// touches the outside world is returned as a command.
#[derive(Debug, Clone, Copy, PartialEq, Eq, Structural)]
pub enum Command {
    /// Nothing to do.
    NoOp,
    /// Terminate the application loop.
    Quit,
    /// Cancel any running test and start a new one.
    StartTest,
    /// Load stored results for the trends screen.
    LoadTrends,
    /// Copy the last result to the clipboard.
    Share,
    /// Persist settings to the config file.
    SaveConfig,
    /// Rebuild the engine for the newly selected provider and rediscover
    /// servers.
    ReloadProvider,
}

/// A key press, as the controller sees it.
#[derive(Debug, Clone, Copy, PartialEq, Eq)]
pub enum Key {
    /// A character key.
    Char(char),
    /// Escape.
    Esc,
    /// Arrow up.
    Up,
    /// Arrow down.
    Down,
    /// Arrow left.
    Left,
    /// Arrow right.
    Right,
    /// Enter / return.
    Enter,
    /// Any other key.
    Other,
}

/// A mouse action, as the controller sees it.
#[derive(Debug, Clone, Copy, PartialEq, Eq)]
pub enum Mouse {
    /// Wheel scrolled up.
    ScrollUp,
    /// Wheel scrolled down.
    ScrollDown,
    /// Left button pressed.
    LeftDown,
    /// Any other mouse action.
    Other,
}

/// The action a key press means on a screen.
pub open spec fn key_action(screen: Screen, key: Key) -> Option<Action> {
    match key {
        Key::Char(c) => if c == 'q' {
            Some(Action::Quit)
        } else if c == 'r' {
            Some(Action::Restart)
        } else if c == 's' {
            Some(Action::ShowServers)
        } else if c == 't' {
            Some(Action::ShowThemes)
        } else if c == 'c' {
            Some(Action::ShowSettings)
        } else if c == '?' {
            Some(Action::ShowHelp)
        } else if c == 'g' {
            Some(Action::ShowTrends)
        } else if c == 'y' {
            Some(Action::Share)
        } else if c == 'k' {
            Some(Action::MoveUp)
        } else if c == 'j' {
            Some(Action::MoveDown)
        } else if c == 'h' {
            Some(Action::MoveLeft)
        } else if c == 'l' {
            Some(Action::MoveRight)
        } else if c == 'w' && screen == Screen::Settings {
            Some(Action::SaveConfig)
        } else {
            None
        },
        Key::Esc => if overlay(screen) {
            Some(Action::Back)
        } else {
            Some(Action::Quit)
        },
        Key::Up => Some(Action::MoveUp),
        Key::Down => Some(Action::MoveDown),
        Key::Left => Some(Action::MoveLeft),
        Key::Right => Some(Action::MoveRight),
        Key::Enter => Some(Action::Confirm),
        Key::Other => None,
    }
}

/// Decodes a key event into an [`Action`] for the current screen.
pub fn map_key(screen: Screen, key: Key) -> (r: Option<Action>)
    ensures
        r == key_action(screen, key),
{
    match key {
        Key::Char(c) => {
            if c == 'q' {
                Some(Action::Quit)
            } else if c == 'r' {
                Some(Action::Restart)
            } else if c == 's' {
                Some(Action::ShowServers)
            } else if c == 't' {
                Some(Action::ShowThemes)
            } else if c == 'c' {
                Some(Action::ShowSettings)
            } else if c == '?' {
                Some(Action::ShowHelp)
            } else if c == 'g' {
                Some(Action::ShowTrends)
            } else if c == 'y' {
                Some(Action::Share)
            } else if c == 'k' {
                Some(Action::MoveUp)
            } else if c == 'j' {
                Some(Action::MoveDown)
            } else if c == 'h' {
                Some(Action::MoveLeft)
            } else if c == 'l' {
                Some(Action::MoveRight)
            } else if c == 'w' && screen == Screen::Settings {
                Some(Action::SaveConfig)
            } else {
                None
            }
        },
        Key::Esc => {
            if screen.is_overlay() {
                Some(Action::Back)
            } else {
                Some(Action::Quit)
            }
        },
        Key::Up => Some(Action::MoveUp),
        Key::Down => Some(Action::MoveDown),
        Key::Left => Some(Action::MoveLeft),
        Key::Right => Some(Action::MoveRight),
        Key::Enter => Some(Action::Confirm),
        Key::Other => None,
    }
}

/// Decodes a mouse event into an [`Action`] for the current screen.
///
/// The wheel navigates selection lists; a left click confirms the
/// highlighted entry. Other screens ignore the mouse.
pub fn map_mouse(screen: Screen, kind: Mouse) -> (r: Option<Action>)
    ensures
        (screen != Screen::ServerSelect && screen != Screen::ThemeSelect) ==> r is None,
        (screen == Screen::ServerSelect || screen == Screen::ThemeSelect) ==> r == match kind {
            Mouse::ScrollUp => Some(Action::MoveUp),
            Mouse::ScrollDown => Some(Action::MoveDown),
            Mouse::LeftDown => Some(Action::Confirm),
            Mouse::Other => None::<Action>,
        },
{
    if !(screen == Screen::ServerSelect || screen == Screen::ThemeSelect) {
        return None;
    }
    match kind {
        Mouse::ScrollUp => Some(Action::MoveUp),
        Mouse::ScrollDown => Some(Action::MoveDown),
        Mouse::LeftDown => Some(Action::Confirm),
        Mouse::Other => None,
    }
}

// ── Transitions ──────────────────────────────────────────────────────────────

/// `s` with a redraw requested.
pub open spec fn redrawn(s: AppState) -> AppState {
    AppState { dirty: true, ..s }
}

/// `s` with an overlay opened: nothing changes when it is already open;
/// leaving a non-overlay screen remembers it as the screen to return to.
pub open spec fn with_overlay(s: AppState, o: Screen) -> AppState {
    if s.screen == o {
        s
    } else if overlay(s.screen) {
        AppState { screen: o, ..s }
    } else {
        AppState { screen: o, return_to: s.screen, ..s }
    }
}

/// The length of the list a selection screen shows.
pub open spec fn list_len(s: AppState) -> int {
    match s.screen {
        Screen::ServerSelect => s.servers@.len() as int,
        Screen::ThemeSelect => s.theme_names@.len() as int,
        Screen::Settings => AppState::SETTINGS_ROWS as int,
        _ => 0,
    }
}

/// A cursor moved one row up (`delta < 0`) or down, kept on the list.
pub open spec fn moved(cursor: int, delta: int, len: int) -> int {
    if delta < 0 {
        if cursor > 0 {
            cursor - 1
        } else {
            0
        }
    } else if cursor + 1 < len - 1 {
        cursor + 1
    } else {
        len - 1
    }
}

/// `s` with the cursor of its selection screen moved.
pub open spec fn cursor_moved(s: AppState, delta: int) -> AppState {
    let len = list_len(s);
    if len == 0 {
        s
    } else {
        match s.screen {
            Screen::ServerSelect => AppState {
                server_cursor: moved(s.server_cursor as int, delta, len) as usize,
                ..s
            },
            Screen::ThemeSelect => AppState {
                theme_cursor: moved(s.theme_cursor as int, delta, len) as usize,
                ..s
            },
            _ => AppState { settings_cursor: moved(s.settings_cursor as int, delta, len) as usize, ..s },
        }
    }
}

/// `s` after confirming the highlighted entry of a selection screen.
pub open spec fn confirmed(s: AppState) -> AppState {
    match s.screen {
        Screen::ServerSelect => if s.servers@.len() == 0 {
            s
        } else {
            AppState {
                server_index: (if s.server_cursor < s.servers@.len() - 1 {
                    s.server_cursor as int
                } else {
                    s.servers@.len() - 1
                }) as usize,
                screen: s.return_to,
                ..s
            }
        },
        Screen::ThemeSelect => if s.theme_names@.len() == 0 {
            AppState { screen: s.return_to, ..s }
        } else {
            AppState {
                theme_index: (if s.theme_cursor < s.theme_names@.len() - 1 {
                    s.theme_cursor as int
                } else {
                    s.theme_names@.len() - 1
                }) as usize,
                screen: s.return_to,
                ..s
            }
        },
        _ => s,
    }
}

/// The state after a left/right adjustment: the trends screen cycles its
/// filter, the settings screen steps the row under the cursor, other
/// screens ignore it.
pub open spec fn adjusted(s: AppState, post: AppState, delta: i64) -> bool {
    match s.screen {
        Screen::Trends => post == filter_cycled(s, delta),
        Screen::Settings => {
            &&& setting_adjusted(s, post, delta)
            &&& post == AppState {
                theme_index: post.theme_index,
                theme_cursor: post.theme_cursor,
                settings: post.settings,
                ..s
            }
        },
        _ => post == s,
    }
}

/// The server cursor clamped to the list when the server screen opens.
pub open spec fn server_cursor_on_open(s: AppState) -> int {
    let last = if s.servers@.len() > 0 {
        s.servers@.len() - 1
    } else {
        0
    };
    if (s.server_index as int) < last {
        s.server_index as int
    } else {
        last
    }
}

/// The state after handling `action` (always with a redraw requested).
pub open spec fn handled(pre: AppState, post: AppState, action: Action) -> bool {
    let s = redrawn(pre);
    match action {
        Action::Quit | Action::Restart | Action::Share | Action::SaveConfig => post == s,
        Action::ShowHelp => post == with_overlay(s, Screen::Help),
        Action::ShowSettings => post == with_overlay(s, Screen::Settings),
        Action::ShowServers => post == with_overlay(
            AppState { server_cursor: server_cursor_on_open(s) as usize, ..s },
            Screen::ServerSelect,
        ),
        Action::ShowThemes => post == with_overlay(
            AppState { theme_cursor: s.theme_index, ..s },
            Screen::ThemeSelect,
        ),
        Action::ShowTrends => post == with_overlay(s, Screen::Trends),
        Action::Back => post == (if overlay(s.screen) {
            AppState { screen: s.return_to, ..s }
        } else {
            s
        }),
        Action::MoveUp => post == cursor_moved(s, -1),
        Action::MoveDown => post == cursor_moved(s, 1),
        Action::MoveLeft => adjusted(s, post, -1i64),
        Action::MoveRight => adjusted(s, post, 1i64),
        Action::Confirm => post == confirmed(s),
    }
}

/// The command `action` asks of the runtime.
pub open spec fn command_for(pre: AppState, action: Action) -> Command {
    match action {
        Action::Quit => Command::Quit,
        Action::Restart => if pre.servers@.len() == 0 {
            Command::NoOp
        } else {
            Command::StartTest
        },
        Action::ShowTrends => Command::LoadTrends,
        Action::Share => if pre.has_report {
            Command::Share
        } else {
            Command::NoOp
        },
        Action::SaveConfig => Command::SaveConfig,
        Action::Confirm => if pre.screen == Screen::ServerSelect && pre.servers@.len() > 0 {
            Command::StartTest
        } else {
            Command::NoOp
        },
        _ => Command::NoOp,
    }
}

/// What [`handle`] needs so that no step overflows: moving a cursor down
/// or adjusting a value never leaves the integer ranges.
pub open spec fn can_handle(s: AppState, action: Action) -> bool {
    match action {
        Action::MoveDown => match s.screen {
            Screen::ServerSelect => s.server_cursor < usize::MAX,
            Screen::ThemeSelect => s.theme_cursor < usize::MAX,
            Screen::Settings => s.settings_cursor < usize::MAX,
            _ => true,
        },
        Action::MoveLeft => match s.screen {
            Screen::Trends => can_cycle_filter(s, -1i64),
            Screen::Settings => can_adjust(s, -1i64),
            _ => true,
        },
        Action::MoveRight => match s.screen {
            Screen::Trends => can_cycle_filter(s, 1i64),
            Screen::Settings => can_adjust(s, 1i64),
            _ => true,
        },
        _ => true,
    }
}

fn can_cycle(state: &AppState, delta: i64) -> (r: bool)
    ensures
        r == can_cycle_filter(*state, delta),
{
    let servers = state.trend_servers();
    proof {
        assert(names_of(servers@).len() == servers@.len());
    }
    if servers.len() == 0 {
        return true;
    }
    let f = state.trends_filter;
    if (f as u64) > (i64::MAX as u64) {
        return false;
    }
    let v = f as i64;
    if delta > 0 {
        v <= i64::MAX - delta
    } else {
        v >= i64::MIN - delta
    }
}

fn can_adjust_setting(state: &AppState, delta: i64) -> (r: bool)
    ensures
        r == can_adjust(*state, delta),
{
    let up = delta > 0;
    let e = state.settings.engine;
    match state.settings_cursor {
        0 => {
            let t = state.theme_index;
            if (t as u64) > (i64::MAX as u64) {
                false
            } else if delta > 0 {
                (t as i64) <= i64::MAX - delta
            } else {
                (t as i64) >= i64::MIN - delta
            }
        },
        4 => !up || e.duration_secs < u64::MAX,
        5 => !up || (e.connections as u64) < u64::MAX,
        6 => !up || e.timeout_secs < u64::MAX,
        1 | 2 | 3 => true,
        _ => !up || (e.upload_chunk_kb as u64) <= u64::MAX - 64,
    }
}

/// Whether [`handle`] can take `action` in `state` without overflowing a
/// cursor or a setting (true in every state the application reaches).
pub fn handles(state: &AppState, action: Action) -> (r: bool)
    ensures
        r == can_handle(*state, action),
{
    match action {
        Action::MoveDown => match state.screen {
            Screen::ServerSelect => state.server_cursor < usize::MAX,
            Screen::ThemeSelect => state.theme_cursor < usize::MAX,
            Screen::Settings => state.settings_cursor < usize::MAX,
            _ => true,
        },
        Action::MoveLeft => match state.screen {
            Screen::Trends => can_cycle(state, -1),
            Screen::Settings => can_adjust_setting(state, -1),
            _ => true,
        },
        Action::MoveRight => match state.screen {
            Screen::Trends => can_cycle(state, 1),
            Screen::Settings => can_adjust_setting(state, 1),
            _ => true,
        },
        _ => true,
    }
}

/// Applies a left/right adjustment on screens that support it.
fn adjust(state: &mut AppState, delta: i64) -> (r: Command)
    requires
        delta == 1 || delta == -1,
        old(state).dirty,
        old(state).screen == Screen::Trends ==> can_cycle_filter(*old(state), delta),
        old(state).screen == Screen::Settings ==> can_adjust(*old(state), delta),
    ensures
        r == Command::NoOp,
        adjusted(*old(state), *final(state), delta),
{
    match state.screen {
        Screen::Trends => {
            state.cycle_trends_filter(delta);
        },
        Screen::Settings => {
            state.adjust_setting(delta);
        },
        _ => {},
    }
    Command::NoOp
}

/// Switches to an overlay screen, remembering where to return.
fn open_overlay(state: &mut AppState, o: Screen)
    ensures
        *final(state) == with_overlay(*old(state), o),
{
    if state.screen == o {
        return ;
    }
    if !state.screen.is_overlay() {
        state.return_to = state.screen;
    }
    state.screen = o;
}

/// Moves the list cursor on selection screens.
fn move_cursor(state: &mut AppState, delta: i64)
    requires
        delta == 1 || delta == -1,
        delta > 0 ==> match old(state).screen {
            Screen::ServerSelect => old(state).server_cursor < usize::MAX,
            Screen::ThemeSelect => old(state).theme_cursor < usize::MAX,
            Screen::Settings => old(state).settings_cursor < usize::MAX,
            _ => true,
        },
    ensures
        *final(state) == cursor_moved(*old(state), delta as int),
{
    let len = match state.screen {
        Screen::ServerSelect => state.servers.len(),
        Screen::ThemeSelect => state.theme_names.len(),
        Screen::Settings => AppState::SETTINGS_ROWS,
        _ => 0,
    };
    if len == 0 {
        return ;
    }
    let last = len - 1;
    let cursor = match state.screen {
        Screen::ServerSelect => state.server_cursor,
        Screen::ThemeSelect => state.theme_cursor,
        _ => state.settings_cursor,
    };
    let next = if delta < 0 {
        if cursor > 0 {
            cursor - 1
        } else {
            0
        }
    } else {
        let up = cursor + 1;
        if up < last {
            up
        } else {
            last
        }
    };
    match state.screen {
        Screen::ServerSelect => {
            state.server_cursor = next;
        },
        Screen::ThemeSelect => {
            state.theme_cursor = next;
        },
        _ => {
            state.settings_cursor = next;
        },
    }
}

/// Confirms the highlighted entry on selection screens.
fn confirm(state: &mut AppState) -> (r: Command)
    ensures
        *final(state) == confirmed(*old(state)),
        r == (if old(state).screen == Screen::ServerSelect && old(state).servers@.len() > 0 {
            Command::StartTest
        } else {
            Command::NoOp
        }),
{
    match state.screen {
        Screen::ServerSelect => {
            if state.servers.len() == 0 {
                return Command::NoOp;
            }
            let last = state.servers.len() - 1;
            state.server_index = if state.server_cursor < last {
                state.server_cursor
            } else {
                last
            };
            state.screen = state.return_to;
            Command::StartTest
        },
        Screen::ThemeSelect => {
            if state.theme_names.len() > 0 {
                let last = state.theme_names.len() - 1;
                state.theme_index = if state.theme_cursor < last {
                    state.theme_cursor
                } else {
                    last
                };
            }
            state.screen = state.return_to;
            Command::NoOp
        },
        _ => Command::NoOp,
    }
}

/// Applies an action to the state and returns the requested side effect.
pub fn handle(state: &mut AppState, action: Action) -> (r: Command)
    requires
        can_handle(*old(state), action),
    ensures
        r == command_for(*old(state), action),
        handled(*old(state), *final(state), action),
{
    state.request_redraw();
    match action {
        Action::Quit => Command::Quit,
        Action::Restart => {
            if state.servers.len() == 0 {
                Command::NoOp
            } else {
                Command::StartTest
            }
        },
        Action::ShowHelp => {
            open_overlay(state, Screen::Help);
            Command::NoOp
        },
        Action::ShowSettings => {
            open_overlay(state, Screen::Settings);
            Command::NoOp
        },
        Action::ShowServers => {
            let last = if state.servers.len() > 0 {
                state.servers.len() - 1
            } else {
                0
            };
            state.server_cursor = if state.server_index < last {
                state.server_index
            } else {
                last
            };
            open_overlay(state, Screen::ServerSelect);
            Command::NoOp
        },
        Action::ShowThemes => {
            state.theme_cursor = state.theme_index;
            open_overlay(state, Screen::ThemeSelect);
            Command::NoOp
        },
        Action::ShowTrends => {
            open_overlay(state, Screen::Trends);
            Command::LoadTrends
        },
        Action::Share => {
            if state.has_report {
                Command::Share
            } else {
                Command::NoOp
            }
        },
        Action::Back => {
            if state.screen.is_overlay() {
                state.screen = state.return_to;
            }
            Command::NoOp
        },
        Action::MoveUp => {
            move_cursor(state, -1);
            Command::NoOp
        },
        Action::MoveDown => {
            move_cursor(state, 1);
            Command::NoOp
        },
        Action::MoveLeft => adjust(state, -1),
        Action::MoveRight => adjust(state, 1),
        Action::SaveConfig => Command::SaveConfig,
        Action::Confirm => confirm(state),
    }
}

// ── Laws ─────────────────────────────────────────────────────────────────────

/// Esc leaves an overlay and quits from a full screen; `q` always quits.
pub proof fn law_escape_backs_out_of_overlays(screen: Screen)
    ensures
        key_action(screen, Key::Esc) == (if overlay(screen) {
            Some(Action::Back)
        } else {
            Some(Action::Quit)
        }),
        key_action(screen, Key::Char('q')) == Some(Action::Quit),
{
}

/// The screen to return to is never an overlay: handling any action, in
/// any state, keeps that so. Moving between overlays keeps the screen to
/// return to, and going back leaves an overlay for that screen (and
/// does nothing elsewhere) without asking anything of the runtime.
pub proof fn law_return_target_is_never_an_overlay(pre: AppState, post: AppState, action: Action)
    requires
        handled(pre, post, action),
    ensures
        !overlay(pre.return_to) ==> !overlay(post.return_to),
        overlay(pre.screen) && overlay(post.screen) ==> post.return_to == pre.return_to,
        action == Action::Back ==> command_for(pre, action) == Command::NoOp && post.screen == (
        if overlay(pre.screen) {
            pre.return_to
        } else {
            pre.screen
        }),
{
}

/// Opening an overlay from a full screen and going back returns to that
/// screen.
pub proof fn law_back_returns_to_origin(
    s0: AppState,
    s1: AppState,
    s2: AppState,
    open: Action,
)
    requires
        !overlay(s0.screen),
        open == Action::ShowHelp || open == Action::ShowSettings || open == Action::ShowServers
            || open == Action::ShowThemes || open == Action::ShowTrends,
        handled(s0, s1, open),
        handled(s1, s2, Action::Back),
    ensures
        overlay(s1.screen),
        s2.screen == s0.screen,
{
}

/// Selection cursors stay on their lists: moving the cursor of a
/// non-empty list keeps it within the list.
pub proof fn law_cursor_stays_on_list(pre: AppState, post: AppState, action: Action)
    requires
        action == Action::MoveUp || action == Action::MoveDown,
        handled(pre, post, action),
        list_len(pre) > 0,
        pre.screen == Screen::ServerSelect ==> pre.server_cursor < pre.servers@.len(),
        pre.screen == Screen::ThemeSelect ==> pre.theme_cursor < pre.theme_names@.len(),
        pre.screen == Screen::Settings ==> pre.settings_cursor < AppState::SETTINGS_ROWS,
    ensures
        pre.screen == Screen::ServerSelect ==> post.server_cursor < post.servers@.len(),
        pre.screen == Screen::ThemeSelect ==> post.theme_cursor < post.theme_names@.len(),
        pre.screen == Screen::Settings ==> post.settings_cursor < AppState::SETTINGS_ROWS,
{
}

/// Confirming a server selects an existing server and starts a test.
pub proof fn law_confirm_selects_existing_server(pre: AppState, post: AppState)
    requires
        pre.screen == Screen::ServerSelect,
        pre.servers@.len() > 0,
        handled(pre, post, Action::Confirm),
    ensures
        post.server_index < post.servers@.len(),
        command_for(pre, Action::Confirm) == Command::StartTest,
        post.screen == pre.return_to,
{
}

/// The arrow keys and their vi letters name the same moves on every
/// screen: up and `k` move up, down and `j` move down, left and `h` move
/// left, right and `l` move right; Enter confirms. On the selection lists
/// the mouse wheel moves the same way and a click confirms.
pub proof fn law_arrow_keys_match_letters(screen: Screen)
    ensures
        key_action(screen, Key::Up) == Some(Action::MoveUp),
        key_action(screen, Key::Down) == Some(Action::MoveDown),
        key_action(screen, Key::Left) == Some(Action::MoveLeft),
        key_action(screen, Key::Right) == Some(Action::MoveRight),
        key_action(screen, Key::Up) == key_action(screen, Key::Char('k')),
        key_action(screen, Key::Down) == key_action(screen, Key::Char('j')),
        key_action(screen, Key::Left) == key_action(screen, Key::Char('h')),
        key_action(screen, Key::Right) == key_action(screen, Key::Char('l')),
        key_action(screen, Key::Up) != key_action(screen, Key::Down),
        key_action(screen, Key::Enter) == Some(Action::Confirm),
{
}

} // verus!
