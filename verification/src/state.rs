//! Application state and the reducers that mutate it.
//!
//! State is plain data with no networking or rendering concerns. The
//! measurement views (live speeds, latency samples, reports, clocks)
//! are floating point or clock readings and are held beside this state
//! by the front end; everything that decides screens, selections,
//! settings and test flow lives here.

use vstd::prelude::*;

use crate::config::{clamped, engine_in_range, Settings};
use crate::models::{server_matches, Server, TestPhase};
use crate::text::{
    chars_of, equal_ignore_ascii_case, eq_ignore_ascii_case, lemma_lex_asymmetric,
    lemma_lex_irreflexive, lemma_lex_total, lemma_lex_transitive, lex_less, lex_lt, lowercase,
    slices_equal, to_lowercase,
};

verus! {

/// The screen currently in the foreground.
#[derive(Debug, Clone, Copy, PartialEq, Eq, Structural)]
pub enum Screen {
    /// Startup splash while servers are discovered.
    Splash,
    /// A test is running.
    Testing,
    /// Final results of a completed test.
    Results,
    /// Keyboard shortcut reference.
    Help,
    /// Read-only view of the active configuration.
    Settings,
    /// Server selection list.
    ServerSelect,
    /// Theme selection list.
    ThemeSelect,
    /// Past results and trends.
    Trends,
    /// A fatal test error.
    Error,
}

/// Whether a screen is an overlay that returns to a parent screen.
pub open spec fn overlay(s: Screen) -> bool {
    s == Screen::Help || s == Screen::Settings || s == Screen::ServerSelect || s
        == Screen::ThemeSelect || s == Screen::Trends
}

/// Whether a screen animates continuously and needs steady redraws.
pub open spec fn animated(s: Screen) -> bool {
    s == Screen::Splash || s == Screen::Testing
}

impl Screen {
    /// Whether this screen is an overlay that returns to a parent screen.
    pub fn is_overlay(self) -> (r: bool)
        ensures
            r == overlay(self),
    {
        match self {
            Screen::Help | Screen::Settings | Screen::ServerSelect | Screen::ThemeSelect
            | Screen::Trends => true,
            _ => false,
        }
    }

    /// Whether this screen animates continuously and needs steady redraws.
    pub fn is_animated(self) -> (r: bool)
        ensures
            r == animated(self),
    {
        match self {
            Screen::Splash | Screen::Testing => true,
            _ => false,
        }
    }
}

/// No screen is both an overlay and continuously animated: overlays are
/// static pages over a parent screen.
pub proof fn law_overlays_are_not_animated(s: Screen)
    ensures
        !(overlay(s) && animated(s)),
{
}

/// The integer part of the live view of the ping phase (the latencies
/// themselves are floating point and kept by the front end).
#[derive(Debug, Clone, Copy, PartialEq, Eq, Structural)]
pub struct PingView {
    /// Number of samples completed so far.
    pub samples_done: u32,
    /// Whether the phase's final statistics arrived.
    pub finished: bool,
}

impl PingView {
    /// The view before any sample.
    pub fn new() -> (r: PingView)
        ensures
            r == (PingView { samples_done: 0, finished: false }),
    {
        PingView { samples_done: 0, finished: false }
    }

    /// Clears the view ahead of a new test.
    pub fn reset(&mut self)
        ensures
            *final(self) == PingView::empty(),
    {
        *self = PingView::new();
    }

    /// The view before any sample.
    pub open spec fn empty() -> PingView {
        PingView { samples_done: 0, finished: false }
    }
}

/// The integer part of the live view of a download or upload phase
/// (speeds and the completion ratio are floating point and kept by the
/// front end).
#[derive(Debug, Clone, Copy, PartialEq, Eq, Structural)]
pub struct TransferView {
    /// Bytes transferred so far.
    pub bytes: u64,
    /// Estimated time remaining in this phase, in milliseconds.
    pub eta_ms: u64,
    /// Whether the phase's final statistics arrived.
    pub finished: bool,
}

impl TransferView {
    /// The view before any transfer.
    pub fn new() -> (r: TransferView)
        ensures
            r == TransferView::empty(),
    {
        TransferView { bytes: 0, eta_ms: 0, finished: false }
    }

    /// Clears the view ahead of a new test.
    pub fn reset(&mut self)
        ensures
            *final(self) == TransferView::empty(),
    {
        *self = TransferView::new();
    }

    /// The view before any transfer.
    pub open spec fn empty() -> TransferView {
        TransferView { bytes: 0, eta_ms: 0, finished: false }
    }
}

/// What the state reducer learns from one engine event. Measurement
/// payloads (latencies, speeds, reports) are applied to the views by
/// the front end; the failure message is kept here.
#[derive(Debug, Clone)]
pub enum EngineEvent {
    /// A new test phase began.
    PhaseStarted {
        /// The phase that just started.
        phase: TestPhase,
    },
    /// A single latency sample completed.
    PingSample {
        /// One-based sample index.
        sequence: u32,
    },
    /// The ping phase finished with aggregated statistics.
    PingFinished,
    /// A live progress update for a download or upload.
    Progress {
        /// The phase the snapshot belongs to.
        phase: TestPhase,
        /// Bytes transferred so far in the phase.
        bytes_transferred: u64,
        /// Estimated time remaining in the phase, in milliseconds.
        eta_ms: u64,
    },
    /// A transfer phase finished with aggregated statistics.
    TransferFinished {
        /// The phase that finished.
        phase: TestPhase,
    },
    /// The entire test completed successfully and produced a report.
    Finished,
    /// The test failed and cannot continue.
    Failed {
        /// A human-readable description of the failure.
        message: String,
    },
}

/// The complete decision state of the application.
#[derive(Debug)]
pub struct AppState {
    /// The screen in the foreground.
    pub screen: Screen,
    /// Where overlay screens return on exit.
    pub return_to: Screen,
    /// The phase currently executing, if a test is running.
    pub phase: Option<TestPhase>,
    /// Live view of the ping phase.
    pub ping: PingView,
    /// Live view of the download phase.
    pub download: TransferView,
    /// Live view of the upload phase.
    pub upload: TransferView,
    /// Discovered servers.
    pub servers: Vec<Server>,
    /// Index of the active server in [`AppState::servers`].
    pub server_index: usize,
    /// Highlighted row on the server selection screen.
    pub server_cursor: usize,
    /// Names of all loaded themes.
    pub theme_names: Vec<String>,
    /// Index of the active theme.
    pub theme_index: usize,
    /// Highlighted row on the theme selection screen.
    pub theme_cursor: usize,
    /// Fatal error message, when on [`Screen::Error`].
    pub error: Option<String>,
    /// Whether server discovery is still in flight.
    pub servers_loading: bool,
    /// Whether a test task is currently running.
    pub testing: bool,
    /// Monotonic UI tick counter, drives spinners.
    pub tick: u64,
    /// The loaded configuration (displayed on the settings screen).
    pub settings: Settings,
    /// Display name of the active provider.
    pub provider_name: &'static str,
    /// The client's public IP and ISP, once discovered.
    pub client_info: Option<String>,
    /// Server query from `--server`; applied when discovery completes.
    pub preferred_server: Option<String>,
    /// Auto-restart the test this many milliseconds after completion,
    /// when set.
    pub repeat_every_ms: Option<u64>,
    /// Whether a completed report is available.
    pub has_report: bool,
    /// Server name of each past result loaded for the trends screen, in
    /// load order.
    pub trend_names: Vec<String>,
    /// Trends server filter: 0 = all, otherwise index+1 into
    /// [`AppState::trend_servers`].
    pub trends_filter: usize,
    /// Highlighted row on the settings screen.
    pub settings_cursor: usize,
    /// A transient status message (such as a save confirmation); how long
    /// ago it was shown is measured by the runtime.
    pub notice: Option<String>,
    /// Set when the visible content changed and a redraw is required;
    /// set through [`AppState::request_redraw`] and consumed by
    /// [`AppState::take_redraw`].
    pub dirty: bool,
}

/// How long the splash screen stays up at least, in milliseconds, so
/// startup never flashes.
pub const MIN_SPLASH_MS: u64 = 1200;

/// How many alternative servers are tried automatically after a failure
/// before the error screen shows.
pub const MAX_FAILOVER: usize = 2;

/// What the runtime does after [`AppState::on_engine_event`].
#[derive(Debug, Clone, Copy, PartialEq, Eq, Structural)]
pub enum EventEffect {
    /// The test failed and the next-nearest server is selected: start a
    /// new test.
    Retry,
    /// The test completed: record its report.
    Completed,
    /// The event was reduced into the state; nothing more to do.
    Applied,
}

/// Whether a failed test moves on to the next-nearest server: no server
/// is pinned, fewer than [`MAX_FAILOVER`] retries were made and a further
/// server exists.
pub open spec fn can_fail_over(s: AppState, attempts: usize) -> bool {
    s.preferred_server is None && attempts < MAX_FAILOVER && s.server_index + 1 < s.servers@.len()
}

/// Whether the terminal needs a full clear before drawing `current`:
/// right after the testing screen gave way to a settled full screen
/// (not an overlay, which draws over a live test).
pub fn needs_full_clear(last_drawn: Option<Screen>, current: Screen) -> (r: bool)
    ensures
        r == (last_drawn == Some(Screen::Testing) && current != Screen::Testing && !overlay(
            current,
        )),
{
    match last_drawn {
        Some(Screen::Testing) => current != Screen::Testing && !current.is_overlay(),
        _ => false,
    }
}

/// How long a transient notice stays visible, in milliseconds.
pub const NOTICE_TTL_MS: u64 = 3000;

/// Whether a notice shown `shown_ago_ms` milliseconds ago is still
/// visible.
pub fn notice_visible(shown_ago_ms: u64) -> (r: bool)
    ensures
        r == (shown_ago_ms < NOTICE_TTL_MS),
{
    shown_ago_ms < NOTICE_TTL_MS
}

/// The views of a list of strings.
pub open spec fn names_of(v: Seq<String>) -> Seq<Seq<char>> {
    v.map_values(|s: String| s@)
}

/// The index of the first name equal to `theme` ignoring ASCII case, or
/// the length when there is none.
pub open spec fn theme_position(names: Seq<Seq<char>>, theme: Seq<char>) -> int
    decreases names.len(),
{
    if names.len() == 0 {
        0
    } else if eq_ignore_ascii_case(names[0], theme) {
        0
    } else {
        1 + theme_position(names.drop_first(), theme)
    }
}

proof fn lemma_theme_position(names: Seq<Seq<char>>, theme: Seq<char>, i: int)
    requires
        0 <= i <= names.len(),
        forall|k: int| 0 <= k < i ==> !eq_ignore_ascii_case(#[trigger] names[k], theme),
        i < names.len() ==> eq_ignore_ascii_case(names[i], theme),
    ensures
        theme_position(names, theme) == i,
    decreases names.len(),
{
    if names.len() > 0 && i > 0 {
        assert forall|k: int| 0 <= k < i - 1 implies !eq_ignore_ascii_case(
            #[trigger] names.drop_first()[k],
            theme,
        ) by {
            assert(names.drop_first()[k] == names[k + 1]);
        }
        lemma_theme_position(names.drop_first(), theme, i - 1);
    }
}

/// The index of the first server matching `query`, or the length when
/// there is none.
pub open spec fn first_match(servers: Seq<Server>, query: Seq<char>) -> int
    decreases servers.len(),
{
    if servers.len() == 0 {
        0
    } else if server_matches(servers[0].name@, servers[0].description@, query) {
        0
    } else {
        1 + first_match(servers.drop_first(), query)
    }
}

proof fn lemma_first_match(servers: Seq<Server>, query: Seq<char>, i: int)
    requires
        0 <= i <= servers.len(),
        forall|k: int|
            0 <= k < i ==> !server_matches(
                (#[trigger] servers[k]).name@,
                servers[k].description@,
                query,
            ),
        i < servers.len() ==> server_matches(servers[i].name@, servers[i].description@, query),
    ensures
        first_match(servers, query) == i,
    decreases servers.len(),
{
    if servers.len() > 0 && i > 0 {
        assert forall|k: int| 0 <= k < i - 1 implies !server_matches(
            (#[trigger] servers.drop_first()[k]).name@,
            servers.drop_first()[k].description@,
            query,
        ) by {
            assert(servers.drop_first()[k] == servers[k + 1]);
        }
        lemma_first_match(servers.drop_first(), query, i - 1);
    }
}

/// The index of the first server whose name or host contains `query`,
/// ignoring case; the number of servers when none does.
pub fn first_matching(servers: &Vec<Server>, query: &str) -> (r: usize)
    ensures
        r == first_match(servers@, query@),
        r <= servers@.len(),
{
    let mut i: usize = 0;
    while i < servers.len()
        invariant
            i <= servers@.len(),
            forall|k: int|
                0 <= k < i ==> !server_matches(
                    (#[trigger] servers@[k]).name@,
                    servers@[k].description@,
                    query@,
                ),
        decreases servers.len() - i,
    {
        if servers[i].matches(query) {
            proof {
                lemma_first_match(servers@, query@, i as int);
            }
            return i;
        }
        i += 1;
    }
    proof {
        lemma_first_match(servers@, query@, i as int);
    }
    i
}

/// The server selected after discovery: the first one matching the
/// preferred query, else the nearest (index 0).
pub open spec fn preferred_index(servers: Seq<Server>, preferred: Option<String>) -> int {
    match preferred {
        Some(q) => if first_match(servers, q@) < servers.len() {
            first_match(servers, q@)
        } else {
            0
        },
        None => 0,
    }
}

/// `v` stepped up or down by `step` (down saturating at zero), then held
/// to `lo..=hi`: the value always ends within the loader's clamps.
pub open spec fn stepped(v: int, lo: int, hi: int, step: int, up: bool) -> int {
    let raw = if up {
        v + step
    } else if v >= step {
        v - step
    } else {
        0
    };
    clamped(raw, lo, hi)
}

fn step_u64(value: u64, lo: u64, hi: u64, step: u64, up: bool) -> (r: u64)
    requires
        lo <= hi,
        up ==> value + step <= u64::MAX,
    ensures
        r == stepped(value as int, lo as int, hi as int, step as int, up),
{
    let raw = if up {
        value + step
    } else if value >= step {
        value - step
    } else {
        0
    };
    if raw < lo {
        lo
    } else if raw > hi {
        hi
    } else {
        raw
    }
}

/// `(x + delta)` taken Euclidean-modulo `m`.
pub open spec fn cycled(x: int, delta: int, m: int) -> int {
    (x + delta) % m
}

fn cycle(x: usize, delta: i64, m: u128) -> (r: usize)
    requires
        0 < m <= usize::MAX + 1,
        x <= i64::MAX,
        i64::MIN <= x + delta <= i64::MAX,
    ensures
        r == cycled(x as int, delta as int, m as int),
        r < m,
{
    let v: i128 = x as i128 + delta as i128;
    if v >= 0 {
        let r = (v as u128) % m;
        r as usize
    } else {
        let n = (-v) as u128;
        let k = n % m;
        proof {
            lemma_neg_mod(v as int, m as int, k as int);
        }
        if k == 0 {
            0
        } else {
            (m - k) as usize
        }
    }
}

proof fn lemma_neg_mod(v: int, m: int, k: int)
    requires
        v < 0,
        m > 0,
        k == (-v) % m,
    ensures
        v % m == (if k == 0 {
            0
        } else {
            m - k
        }),
{
    let q = (-v) / m;
    assert((-v) == m * q + k) by {
        vstd::arithmetic::div_mod::lemma_fundamental_div_mod(-v, m);
    }
    assert(0 <= k < m) by {
        vstd::arithmetic::div_mod::lemma_mod_bound(-v, m);
    }
    if k == 0 {
        assert(v == (-q) * m) by (nonlinear_arith)
            requires
                (-v) == m * q,
        ;
        vstd::arithmetic::div_mod::lemma_mod_multiples_basic(-q, m);
    } else {
        assert(v == (-q - 1) * m + (m - k)) by (nonlinear_arith)
            requires
                (-v) == m * q + k,
        ;
        vstd::arithmetic::div_mod::lemma_mod_multiples_vanish(-q - 1, m - k, m);
        vstd::arithmetic::div_mod::lemma_small_mod((m - k) as nat, m as nat);
    }
}

/// The state after the reducer took one engine event (see
/// [`AppState::apply_engine_event`]).
pub open spec fn event_applied(pre: AppState, post: AppState, event: EngineEvent) -> bool {
    &&& match event {
        EngineEvent::PhaseStarted { phase } => {
            &&& post.phase == Some(phase)
            &&& post.screen == (if overlay(pre.screen) {
                pre.screen
            } else {
                Screen::Testing
            })
            &&& post.testing == pre.testing
            &&& post.has_report == pre.has_report
            &&& post.error == pre.error
            &&& post.needs_redraw()
            &&& post.ping == pre.ping
            &&& post.download == pre.download
            &&& post.upload == pre.upload
        },
        EngineEvent::Finished => {
            &&& post.phase is None
            &&& post.screen == (if overlay(pre.screen) {
                pre.screen
            } else {
                Screen::Results
            })
            &&& !post.testing
            &&& post.has_report
            &&& post.error == pre.error
            &&& post.needs_redraw()
            &&& post.ping == pre.ping
            &&& post.download == pre.download
            &&& post.upload == pre.upload
        },
        EngineEvent::Failed { message } => {
            &&& post.phase is None
            &&& post.screen == Screen::Error
            &&& !post.testing
            &&& post.has_report == pre.has_report
            &&& post.error == Some(message)
            &&& post.needs_redraw()
            &&& post.ping == pre.ping
            &&& post.download == pre.download
            &&& post.upload == pre.upload
        },
        EngineEvent::PingSample { sequence } => post == (AppState {
            ping: PingView { samples_done: sequence, ..pre.ping },
            dirty: true,
            ..pre
        }),
        EngineEvent::PingFinished => post == (AppState {
            ping: PingView { finished: true, ..pre.ping },
            dirty: true,
            ..pre
        }),
        EngineEvent::Progress { phase, bytes_transferred, eta_ms } => post == (
        match phase {
            TestPhase::Ping => pre,
            TestPhase::Download => AppState {
                download: TransferView {
                    bytes: bytes_transferred,
                    eta_ms: eta_ms,
                    ..pre.download
                },
                dirty: true,
                ..pre
            },
            TestPhase::Upload => AppState {
                upload: TransferView {
                    bytes: bytes_transferred,
                    eta_ms: eta_ms,
                    ..pre.upload
                },
                dirty: true,
                ..pre
            },
        }),
        EngineEvent::TransferFinished { phase } => post == (match phase {
            TestPhase::Ping => pre,
            TestPhase::Download => AppState {
                download: TransferView { finished: true, ..pre.download },
                dirty: true,
                ..pre
            },
            TestPhase::Upload => AppState {
                upload: TransferView { finished: true, ..pre.upload },
                dirty: true,
                ..pre
            },
        }),
    }
    &&& post.return_to == pre.return_to
    &&& post.same_nav(pre)
    &&& post.servers == pre.servers
    &&& post.theme_names == pre.theme_names
    &&& post.servers_loading == pre.servers_loading
    &&& post.tick == pre.tick
    &&& post.provider_name == pre.provider_name
    &&& post.client_info == pre.client_info
    &&& post.preferred_server == pre.preferred_server
    &&& post.repeat_every_ms == pre.repeat_every_ms
    &&& post.trend_names == pre.trend_names
    &&& post.notice == pre.notice
}

impl AppState {
    /// Whether the visible content changed since the last frame.
    pub open spec fn needs_redraw(&self) -> bool {
        self.dirty
    }

    /// Creates the initial state on the splash screen; the active theme is
    /// the first one named like the configured theme (ignoring ASCII
    /// case), else the first one.
    pub fn new(settings: Settings, theme_names: Vec<String>, provider_name: &'static str) -> (r:
        AppState)
        ensures
            r.screen == Screen::Splash,
            r.return_to == Screen::Splash,
            r.phase is None,
            r.ping == PingView::empty(),
            r.download == TransferView::empty(),
            r.upload == TransferView::empty(),
            r.servers@.len() == 0,
            r.server_index == 0,
            r.server_cursor == 0,
            r.theme_names == theme_names,
            theme_position(names_of(theme_names@), settings.theme@) < theme_names@.len()
                ==> r.theme_index == theme_position(names_of(theme_names@), settings.theme@),
            theme_position(names_of(theme_names@), settings.theme@) >= theme_names@.len()
                ==> r.theme_index == 0,
            r.theme_cursor == r.theme_index,
            r.error is None,
            r.servers_loading,
            !r.testing,
            r.tick == 0,
            r.settings == settings,
            r.provider_name == provider_name,
            r.client_info is None,
            r.preferred_server is None,
            r.repeat_every_ms is None,
            !r.has_report,
            r.trend_names@.len() == 0,
            r.trends_filter == 0,
            r.settings_cursor == 0,
            r.notice is None,
            r.needs_redraw(),
    {
        let theme = chars_of(settings.theme.as_str());
        let mut i: usize = 0;
        let mut found = false;
        while i < theme_names.len()
            invariant_except_break
                !found,
            invariant
                i <= theme_names@.len(),
                theme@ == settings.theme@,
                forall|k: int|
                    0 <= k < i ==> !eq_ignore_ascii_case(
                        #[trigger] names_of(theme_names@)[k],
                        settings.theme@,
                    ),
            ensures
                found ==> i < theme_names@.len() && eq_ignore_ascii_case(
                    names_of(theme_names@)[i as int],
                    settings.theme@,
                ),
                !found ==> i == theme_names@.len(),
            decreases theme_names.len() - i,
        {
            let name = chars_of(theme_names[i].as_str());
            if equal_ignore_ascii_case(&name, &theme) {
                found = true;
                assert(names_of(theme_names@)[i as int] == theme_names@[i as int]@);
                break;
            }
            i += 1;
        }
        proof {
            if found {
                lemma_theme_position(names_of(theme_names@), settings.theme@, i as int);
            } else {
                lemma_theme_position(
                    names_of(theme_names@),
                    settings.theme@,
                    theme_names@.len() as int,
                );
            }
        }
        let theme_index = if found {
            i
        } else {
            0
        };
        AppState {
            screen: Screen::Splash,
            return_to: Screen::Splash,
            phase: None,
            ping: PingView::new(),
            download: TransferView::new(),
            upload: TransferView::new(),
            servers: Vec::new(),
            server_index: 0,
            server_cursor: 0,
            theme_names,
            theme_index,
            theme_cursor: theme_index,
            error: None,
            servers_loading: true,
            testing: false,
            tick: 0,
            settings,
            provider_name,
            client_info: None,
            preferred_server: None,
            repeat_every_ms: None,
            has_report: false,
            trend_names: Vec::new(),
            trends_filter: 0,
            settings_cursor: 0,
            notice: None,
            dirty: true,
        }
    }

    /// Time remaining until the next scheduled auto-restart, in
    /// milliseconds: the repeat interval less the time since the last
    /// test finished (`finished_ago_ms`, absent when no test finished),
    /// never below zero; absent without a repeat interval.
    pub fn repeat_remaining(&self, finished_ago_ms: Option<u64>) -> (r: Option<u64>)
        ensures
            r == match (self.repeat_every_ms, finished_ago_ms) {
                (Some(every), Some(ago)) => Some(
                    (if ago >= every {
                        0
                    } else {
                        every - ago
                    }) as u64,
                ),
                _ => None,
            },
    {
        match (self.repeat_every_ms, finished_ago_ms) {
            (Some(every), Some(ago)) => Some(every.saturating_sub(ago)),
            _ => None,
        }
    }

    /// Whether the first test starts on its own: the splash screen is up
    /// and has been shown for [`MIN_SPLASH_MS`] (`shown_ms`), discovery
    /// is over with at least one server, and no test runs.
    pub fn splash_done(&self, shown_ms: u64) -> (r: bool)
        ensures
            r == (self.screen == Screen::Splash && !self.servers_loading && !self.testing
                && self.servers@.len() > 0 && shown_ms >= MIN_SPLASH_MS),
    {
        self.screen == Screen::Splash && !self.servers_loading && !self.testing
            && self.servers.len() > 0 && shown_ms >= MIN_SPLASH_MS
    }

    /// Whether the scheduled auto-restart is due: the results screen is
    /// up, no test runs, and the repeat interval has fully elapsed since
    /// the last test finished (`finished_ago_ms`). Never fires from an
    /// overlay, so a user browsing is not pulled away.
    pub fn repeat_due(&self, finished_ago_ms: Option<u64>) -> (r: bool)
        ensures
            r == (self.screen == Screen::Results && !self.testing && match (
                self.repeat_every_ms,
                finished_ago_ms,
            ) {
                (Some(every), Some(ago)) => ago >= every,
                _ => false,
            }),
    {
        self.screen == Screen::Results && !self.testing && match self.repeat_remaining(
            finished_ago_ms,
        ) {
            Some(remaining) => remaining == 0,
            None => false,
        }
    }

    /// Takes one engine event the way the runtime loop does: a failure
    /// first tries failover to the next-nearest server (see
    /// [`AppState::failover`]), counting the retry in `attempts`, and
    /// otherwise the event is reduced into the state; a completed test
    /// resets the retry count. The result says what the runtime does next.
    pub fn on_engine_event(&mut self, attempts: &mut usize, event: EngineEvent) -> (r: EventEffect)
        ensures
            (r == EventEffect::Retry) == (event is Failed && can_fail_over(*old(self), *old(attempts))),
            r == EventEffect::Retry ==> {
                &&& *final(attempts) == *old(attempts) + 1
                &&& *final(self) == (AppState {
                    server_index: (old(self).server_index + 1) as usize,
                    server_cursor: (old(self).server_index + 1) as usize,
                    ..*old(self)
                })
            },
            (r == EventEffect::Completed) == (event is Finished),
            r == EventEffect::Completed ==> *final(attempts) == 0,
            r == EventEffect::Applied ==> *final(attempts) == *old(attempts),
            r != EventEffect::Retry ==> event_applied(*old(self), *final(self), event),
    {
        let failed = match &event {
            EngineEvent::Failed { .. } => true,
            _ => false,
        };
        if failed && self.failover(*attempts) {
            *attempts = *attempts + 1;
            return EventEffect::Retry;
        }
        let finished = match &event {
            EngineEvent::Finished => true,
            _ => false,
        };
        self.apply_engine_event(event);
        if finished {
            *attempts = 0;
            EventEffect::Completed
        } else {
            EventEffect::Applied
        }
    }

    /// Shows a transient status message.
    pub fn set_notice(&mut self, message: String)
        ensures
            *final(self) == (AppState { notice: Some(message), dirty: true, ..*old(self) }),
    {
        self.notice = Some(message);
        self.dirty = true;
    }

    /// The current notice, when it was shown less than
    /// [`NOTICE_TTL_MS`] ago (`shown_ago_ms`).
    pub fn notice(&self, shown_ago_ms: u64) -> (r: Option<&str>)
        ensures
            match self.notice {
                Some(message) => if shown_ago_ms < NOTICE_TTL_MS {
                    r matches Some(t) && t@ == message@
                } else {
                    r is None
                },
                None => r is None,
            },
    {
        match &self.notice {
            Some(message) => if notice_visible(shown_ago_ms) {
                Some(message.as_str())
            } else {
                None
            },
            None => None,
        }
    }

    /// Drops a notice shown [`NOTICE_TTL_MS`] or more ago (`shown_ago_ms`)
    /// and asks for a redraw; a younger notice, or none, stays as it is.
    pub fn expire_notice(&mut self, shown_ago_ms: u64)
        ensures
            (old(self).notice is Some && shown_ago_ms >= NOTICE_TTL_MS) ==> *final(self) == (
            AppState { notice: None, dirty: true, ..*old(self) }),
            !(old(self).notice is Some && shown_ago_ms >= NOTICE_TTL_MS) ==> *final(self)
                == *old(self),
    {
        if self.notice.is_some() && !notice_visible(shown_ago_ms) {
            self.notice = None;
            self.dirty = true;
        }
    }

    /// Moves to the next-nearest server after a failure, unless the user
    /// pinned a server, [`MAX_FAILOVER`] retries (`attempts`) were
    /// already made, or no further server exists. Returns whether it
    /// moved (the caller then starts a new test).
    pub fn failover(&mut self, attempts: usize) -> (r: bool)
        ensures
            r == (old(self).preferred_server is None && attempts < MAX_FAILOVER
                && old(self).server_index + 1 < old(self).servers@.len()),
            r ==> final(self).server_index == old(self).server_index + 1,
            r ==> final(self).server_cursor == old(self).server_index + 1,
            !r ==> final(self).server_index == old(self).server_index,
            !r ==> final(self).server_cursor == old(self).server_cursor,
            final(self).screen == old(self).screen,
            final(self).return_to == old(self).return_to,
            final(self).same_except_nav(*old(self)),
            final(self).theme_index == old(self).theme_index,
            final(self).theme_cursor == old(self).theme_cursor,
            final(self).trends_filter == old(self).trends_filter,
            final(self).settings_cursor == old(self).settings_cursor,
            final(self).settings == old(self).settings,
            final(self).needs_redraw() == old(self).needs_redraw(),
    {
        let n = self.servers.len();
        let possible = self.preferred_server.is_none() && attempts < MAX_FAILOVER && n > 0
            && self.server_index < n - 1;
        if possible {
            self.server_index = self.server_index + 1;
            self.server_cursor = self.server_index;
        }
        possible
    }

    /// Forgets everything learned from the previous provider, ahead of
    /// discovery with a new one: the test is reset and stopped, the
    /// server list and selection cleared, the client info dropped and
    /// discovery marked in flight.
    pub fn switch_provider(&mut self, provider_name: &'static str)
        ensures
            final(self).provider_name == provider_name,
            final(self).phase is None,
            final(self).ping == PingView::empty(),
            final(self).download == TransferView::empty(),
            final(self).upload == TransferView::empty(),
            !final(self).has_report,
            final(self).error is None,
            !final(self).testing,
            final(self).servers@.len() == 0,
            final(self).server_index == 0,
            final(self).server_cursor == 0,
            final(self).client_info is None,
            final(self).servers_loading,
            final(self).needs_redraw(),
            final(self).screen == old(self).screen,
            final(self).return_to == old(self).return_to,
            final(self).theme_names == old(self).theme_names,
            final(self).theme_index == old(self).theme_index,
            final(self).theme_cursor == old(self).theme_cursor,
            final(self).trends_filter == old(self).trends_filter,
            final(self).settings_cursor == old(self).settings_cursor,
            final(self).settings == old(self).settings,
            final(self).tick == old(self).tick,
            final(self).preferred_server == old(self).preferred_server,
            final(self).repeat_every_ms == old(self).repeat_every_ms,
            final(self).trend_names == old(self).trend_names,
            final(self).notice == old(self).notice,
    {
        self.provider_name = provider_name;
        self.reset_test();
        self.testing = false;
        self.servers = Vec::new();
        self.server_index = 0;
        self.server_cursor = 0;
        self.client_info = None;
        self.servers_loading = true;
    }

    /// The currently selected server, if discovery finished.
    pub fn current_server(&self) -> (r: Option<&Server>)
        ensures
            self.server_index < self.servers@.len() ==> r == Some(&self.servers@[self.server_index as int]),
            self.server_index >= self.servers@.len() ==> r is None,
    {
        if self.server_index < self.servers.len() {
            Some(&self.servers[self.server_index])
        } else {
            None
        }
    }

    /// Display name of the selected server (`—` before discovery).
    pub fn server_name(&self) -> (r: &str)
        ensures
            self.server_index < self.servers@.len() ==> r@ == self.servers@[self.server_index as int].name@,
            self.server_index >= self.servers@.len() ==> r@ == "—"@,
    {
        match self.current_server() {
            Some(server) => server.name.as_str(),
            None => "—",
        }
    }

    /// Marks the frame as needing a redraw.
    pub fn request_redraw(&mut self)
        ensures
            final(self).needs_redraw(),
            final(self).same_public(*old(self)),
    {
        self.dirty = true;
    }

    /// Consumes the redraw flag for this frame.
    pub fn take_redraw(&mut self) -> (r: bool)
        ensures
            r == old(self).needs_redraw(),
            !final(self).needs_redraw(),
            final(self).same_public(*old(self)),
    {
        let r = self.dirty;
        self.dirty = false;
        r
    }

    /// Whether every public field of the two states is equal.
    pub open spec fn same_public(self, o: AppState) -> bool {
        &&& self.screen == o.screen
        &&& self.return_to == o.return_to
        &&& self.same_except_nav(o)
        &&& self.same_nav(o)
    }

    /// The selection and navigation fields are equal.
    pub open spec fn same_nav(self, o: AppState) -> bool {
        &&& self.server_index == o.server_index
        &&& self.server_cursor == o.server_cursor
        &&& self.theme_index == o.theme_index
        &&& self.theme_cursor == o.theme_cursor
        &&& self.trends_filter == o.trends_filter
        &&& self.settings_cursor == o.settings_cursor
        &&& self.settings == o.settings
    }

    /// Every public field but the screens, the selections and the
    /// settings is equal.
    pub open spec fn same_except_nav(self, o: AppState) -> bool {
        &&& self.phase == o.phase
        &&& self.ping == o.ping
        &&& self.download == o.download
        &&& self.upload == o.upload
        &&& self.servers == o.servers
        &&& self.theme_names == o.theme_names
        &&& self.error == o.error
        &&& self.servers_loading == o.servers_loading
        &&& self.testing == o.testing
        &&& self.tick == o.tick
        &&& self.provider_name == o.provider_name
        &&& self.client_info == o.client_info
        &&& self.preferred_server == o.preferred_server
        &&& self.repeat_every_ms == o.repeat_every_ms
        &&& self.has_report == o.has_report
        &&& self.trend_names == o.trend_names
        &&& self.notice == o.notice
    }

    /// Clears all measurement data ahead of a new test run.
    pub fn reset_test(&mut self)
        ensures
            final(self).phase is None,
            final(self).ping == PingView::empty(),
            final(self).download == TransferView::empty(),
            final(self).upload == TransferView::empty(),
            !final(self).has_report,
            final(self).error is None,
            final(self).needs_redraw(),
            final(self).screen == old(self).screen,
            final(self).return_to == old(self).return_to,
            final(self).same_nav(*old(self)),
            final(self).servers == old(self).servers,
            final(self).theme_names == old(self).theme_names,
            final(self).servers_loading == old(self).servers_loading,
            final(self).testing == old(self).testing,
            final(self).tick == old(self).tick,
            final(self).provider_name == old(self).provider_name,
            final(self).client_info == old(self).client_info,
            final(self).preferred_server == old(self).preferred_server,
            final(self).repeat_every_ms == old(self).repeat_every_ms,
            final(self).trend_names == old(self).trend_names,
            final(self).notice == old(self).notice,
    {
        self.phase = None;
        self.ping.reset();
        self.download.reset();
        self.upload.reset();
        self.has_report = false;
        self.error = None;
        self.request_redraw();
    }

    /// Advances timers and animations by one tick: animated screens, and
    /// the results screen while a repeat countdown runs, need a redraw.
    pub fn on_tick(&mut self)
        ensures
            final(self).tick == (if old(self).tick == u64::MAX {
                0
            } else {
                old(self).tick + 1
            }),
            final(self).needs_redraw() == (old(self).needs_redraw() || animated(old(self).screen)
                || (old(self).repeat_every_ms is Some && old(self).screen == Screen::Results)),
            final(self).screen == old(self).screen,
            final(self).return_to == old(self).return_to,
            final(self).same_nav(*old(self)),
            final(self).phase == old(self).phase,
            final(self).servers == old(self).servers,
            final(self).theme_names == old(self).theme_names,
            final(self).error == old(self).error,
            final(self).servers_loading == old(self).servers_loading,
            final(self).testing == old(self).testing,
            final(self).provider_name == old(self).provider_name,
            final(self).client_info == old(self).client_info,
            final(self).preferred_server == old(self).preferred_server,
            final(self).repeat_every_ms == old(self).repeat_every_ms,
            final(self).has_report == old(self).has_report,
            final(self).trend_names == old(self).trend_names,
            final(self).notice == old(self).notice,
            final(self).ping == old(self).ping,
            final(self).download == old(self).download,
            final(self).upload == old(self).upload,
    {
        self.tick = if self.tick == u64::MAX {
            0
        } else {
            self.tick + 1
        };
        if self.screen.is_animated() {
            self.request_redraw();
        }
        if self.repeat_every_ms.is_some() && self.screen == Screen::Results {
            self.request_redraw();
        }
    }

    /// Marks a new test as running.
    pub fn begin_test(&mut self)
        ensures
            final(self).testing,
            final(self).screen == Screen::Testing,
            final(self).phase is None,
            final(self).ping == PingView::empty(),
            final(self).download == TransferView::empty(),
            final(self).upload == TransferView::empty(),
            !final(self).has_report,
            final(self).error is None,
            final(self).needs_redraw(),
            final(self).return_to == old(self).return_to,
            final(self).same_nav(*old(self)),
            final(self).servers == old(self).servers,
            final(self).theme_names == old(self).theme_names,
            final(self).servers_loading == old(self).servers_loading,
            final(self).tick == old(self).tick,
            final(self).provider_name == old(self).provider_name,
            final(self).client_info == old(self).client_info,
            final(self).preferred_server == old(self).preferred_server,
            final(self).repeat_every_ms == old(self).repeat_every_ms,
            final(self).trend_names == old(self).trend_names,
            final(self).notice == old(self).notice,
    {
        self.reset_test();
        self.testing = true;
        self.screen = Screen::Testing;
    }

    /// Reduces the result of background server discovery.
    ///
    /// On success the servers replace the list and the preferred server
    /// (the first matching the `--server` query) is selected, falling
    /// back to the nearest one; on failure the error screen shows the
    /// message.
    pub fn apply_servers(&mut self, result: Result<Vec<Server>, String>)
        ensures
            !final(self).servers_loading,
            final(self).needs_redraw(),
            match result {
                Ok(servers) => {
                    &&& final(self).servers == servers
                    &&& final(self).server_index == preferred_index(
                        servers@,
                        old(self).preferred_server,
                    )
                    &&& final(self).server_cursor == final(self).server_index
                    &&& final(self).screen == old(self).screen
                    &&& final(self).error == old(self).error
                },
                Err(message) => {
                    &&& final(self).servers == old(self).servers
                    &&& final(self).server_index == old(self).server_index
                    &&& final(self).server_cursor == old(self).server_cursor
                    &&& final(self).error == Some(message)
                    &&& final(self).screen == Screen::Error
                },
            },
            final(self).return_to == old(self).return_to,
            final(self).phase == old(self).phase,
            final(self).theme_names == old(self).theme_names,
            final(self).theme_index == old(self).theme_index,
            final(self).theme_cursor == old(self).theme_cursor,
            final(self).trends_filter == old(self).trends_filter,
            final(self).settings_cursor == old(self).settings_cursor,
            final(self).settings == old(self).settings,
            final(self).testing == old(self).testing,
            final(self).tick == old(self).tick,
            final(self).provider_name == old(self).provider_name,
            final(self).client_info == old(self).client_info,
            final(self).preferred_server == old(self).preferred_server,
            final(self).repeat_every_ms == old(self).repeat_every_ms,
            final(self).has_report == old(self).has_report,
            final(self).trend_names == old(self).trend_names,
            final(self).notice == old(self).notice,
            final(self).ping == old(self).ping,
            final(self).download == old(self).download,
            final(self).upload == old(self).upload,
    {
        self.servers_loading = false;
        match result {
            Ok(servers) => {
                self.servers = servers;
                let mut index: usize = 0;
                match &self.preferred_server {
                    Some(query) => {
                        let mut i: usize = 0;
                        let mut hit = false;
                        while i < self.servers.len()
                            invariant_except_break
                                !hit,
                            invariant
                                i <= self.servers@.len(),
                                forall|k: int|
                                    0 <= k < i ==> !server_matches(
                                        (#[trigger] self.servers@[k]).name@,
                                        self.servers@[k].description@,
                                        query@,
                                    ),
                            ensures
                                hit ==> i < self.servers@.len() && server_matches(
                                    self.servers@[i as int].name@,
                                    self.servers@[i as int].description@,
                                    query@,
                                ),
                                !hit ==> i == self.servers@.len(),
                            decreases self.servers.len() - i,
                        {
                            if self.servers[i].matches(query.as_str()) {
                                hit = true;
                                break;
                            }
                            i += 1;
                        }
                        proof {
                            lemma_first_match(self.servers@, query@, i as int);
                        }
                        if i < self.servers.len() {
                            index = i;
                        }
                    },
                    None => {},
                }
                self.server_index = index;
                self.server_cursor = index;
            },
            Err(message) => {
                self.error = Some(message);
                self.screen = Screen::Error;
            },
        }
        self.request_redraw();
    }

    /// Reduces one engine event into the state.
    ///
    /// A starting phase brings the testing screen forward and a finished
    /// test the results screen, unless an overlay is open; a failure
    /// always shows the error screen. Progress of the ping phase carries
    /// nothing to show and leaves the state alone.
    pub fn apply_engine_event(&mut self, event: EngineEvent)
        ensures
            event_applied(*old(self), *final(self), event),
    {
        match event {
            EngineEvent::PhaseStarted { phase } => {
                self.phase = Some(phase);
                if !self.screen.is_overlay() {
                    self.screen = Screen::Testing;
                }
            },
            EngineEvent::PingSample { sequence } => {
                self.ping.samples_done = sequence;
            },
            EngineEvent::PingFinished => {
                self.ping.finished = true;
            },
            EngineEvent::Progress { phase, bytes_transferred, eta_ms } => match phase {
                TestPhase::Ping => {
                    return ;
                },
                TestPhase::Download => {
                    self.download.bytes = bytes_transferred;
                    self.download.eta_ms = eta_ms;
                },
                TestPhase::Upload => {
                    self.upload.bytes = bytes_transferred;
                    self.upload.eta_ms = eta_ms;
                },
            },
            EngineEvent::TransferFinished { phase } => match phase {
                TestPhase::Ping => {
                    return ;
                },
                TestPhase::Download => {
                    self.download.finished = true;
                },
                TestPhase::Upload => {
                    self.upload.finished = true;
                },
            },
            EngineEvent::Finished => {
                self.has_report = true;
                self.testing = false;
                self.phase = None;
                if !self.screen.is_overlay() {
                    self.screen = Screen::Results;
                }
            },
            EngineEvent::Failed { message } => {
                self.error = Some(message);
                self.testing = false;
                self.phase = None;
                self.screen = Screen::Error;
            },
        }
        self.request_redraw();
    }
}

// ── Trends ───────────────────────────────────────────────────────────────────

/// Every name sorts strictly before every later one.
pub open spec fn strictly_sorted(r: Seq<Seq<char>>) -> bool {
    forall|i: int, j: int| 0 <= i < j < r.len() ==> lex_lt(#[trigger] r[i], #[trigger] r[j])
}

/// The two lists hold the same names (ignoring order and repetition).
pub open spec fn same_elements(a: Seq<Seq<char>>, b: Seq<Seq<char>>) -> bool {
    forall|x: Seq<char>| #![trigger a.contains(x)] #![trigger b.contains(x)] a.contains(x) <==> b.contains(x)
}

/// The distinct names of `names`, sorted: the one strictly sorted list
/// with the same elements.
pub open spec fn distinct_sorted(names: Seq<Seq<char>>) -> Seq<Seq<char>> {
    choose|r: Seq<Seq<char>>| strictly_sorted(r) && same_elements(r, names)
}

/// Two strictly sorted lists with the same elements are equal.
pub proof fn lemma_sorted_unique(a: Seq<Seq<char>>, b: Seq<Seq<char>>)
    requires
        strictly_sorted(a),
        strictly_sorted(b),
        same_elements(a, b),
    ensures
        a == b,
    decreases a.len(),
{
    if a.len() == 0 {
        if b.len() > 0 {
            assert(b.contains(b[0]));
        }
        assert(a =~= b);
    } else if b.len() == 0 {
        assert(a.contains(a[0]));
    } else {
        assert(a.contains(a[0]));
        assert(b.contains(b[0]));
        let j = choose|j: int| 0 <= j < b.len() && b[j] == a[0];
        let k = choose|k: int| 0 <= k < a.len() && a[k] == b[0];
        if a[0] != b[0] {
            assert(j > 0 && k > 0);
            assert(lex_lt(b[0], b[j]));
            assert(lex_lt(a[0], a[k]));
            lemma_lex_asymmetric(b[0], a[0]);
        }
        let a1 = a.drop_first();
        let b1 = b.drop_first();
        assert forall|x: Seq<char>| #[trigger] a1.contains(x) implies b1.contains(x) by {
            let i = choose|i: int| 0 <= i < a1.len() && a1[i] == x;
            assert(a[i + 1] == x);
            assert(a.contains(x));
            assert(b.contains(x));
            let m = choose|m: int| 0 <= m < b.len() && b[m] == x;
            assert(lex_lt(a[0], a[i + 1]));
            if m == 0 {
                lemma_lex_irreflexive(x);
            }
            assert(b1[m - 1] == x);
        }
        assert forall|x: Seq<char>| #[trigger] b1.contains(x) implies a1.contains(x) by {
            let i = choose|i: int| 0 <= i < b1.len() && b1[i] == x;
            assert(b[i + 1] == x);
            assert(b.contains(x));
            assert(a.contains(x));
            let m = choose|m: int| 0 <= m < a.len() && a[m] == x;
            assert(lex_lt(b[0], b[i + 1]));
            if m == 0 {
                lemma_lex_irreflexive(x);
            }
            assert(a1[m - 1] == x);
        }
        assert(strictly_sorted(a1)) by {
            assert forall|i: int, j: int| 0 <= i < j < a1.len() implies lex_lt(
                #[trigger] a1[i],
                #[trigger] a1[j],
            ) by {
                assert(a1[i] == a[i + 1] && a1[j] == a[j + 1]);
            }
        }
        assert(strictly_sorted(b1)) by {
            assert forall|i: int, j: int| 0 <= i < j < b1.len() implies lex_lt(
                #[trigger] b1[i],
                #[trigger] b1[j],
            ) by {
                assert(b1[i] == b[i + 1] && b1[j] == b[j + 1]);
            }
        }
        lemma_sorted_unique(a1, b1);
        assert(a =~= seq![a[0]] + a1);
        assert(b =~= seq![b[0]] + b1);
    }
}

/// Any strictly sorted list with the elements of `names` is
/// [`distinct_sorted`] of it.
pub proof fn lemma_distinct_sorted(r: Seq<Seq<char>>, names: Seq<Seq<char>>)
    requires
        strictly_sorted(r),
        same_elements(r, names),
    ensures
        distinct_sorted(names) == r,
{
    let c = distinct_sorted(names);
    assert(strictly_sorted(c) && same_elements(c, names));
    assert(same_elements(c, r));
    lemma_sorted_unique(c, r);
}

/// The distinct names of `names`, sorted ascending.
pub fn sorted_unique_names(names: &Vec<String>) -> (r: Vec<String>)
    ensures
        names_of(r@) == distinct_sorted(names_of(names@)),
        strictly_sorted(names_of(r@)),
        same_elements(names_of(r@), names_of(names@)),
{
    let mut res: Vec<String> = Vec::new();
    let mut i: usize = 0;
    while i < names.len()
        invariant
            i <= names@.len(),
            strictly_sorted(names_of(res@)),
            same_elements(names_of(res@), names_of(names@.take(i as int))),
        decreases names.len() - i,
    {
        let x = chars_of(names[i].as_str());
        let ghost xs = names@[i as int]@;
        let ghost rs = names_of(res@);
        let mut p: usize = 0;
        let mut dup = false;
        while p < res.len()
            invariant_except_break
                !dup,
            invariant
                p <= res@.len(),
                rs == names_of(res@),
                x@ == xs,
                forall|k: int| 0 <= k < p ==> lex_lt(#[trigger] rs[k], xs),
            ensures
                p <= res@.len(),
                forall|k: int| 0 <= k < p ==> lex_lt(#[trigger] rs[k], xs),
                dup ==> p < res@.len() && rs[p as int] == xs,
                !dup ==> (p < res@.len() ==> !lex_lt(rs[p as int], xs) && rs[p as int] != xs),
            decreases res.len() - p,
        {
            let y = chars_of(res[p].as_str());
            assert(rs[p as int] == res@[p as int]@);
            if lex_less(&y, &x) {
                p += 1;
            } else {
                if slices_equal(&y, &x) {
                    dup = true;
                }
                break;
            }
        }
        proof {
            assert(names@.take(i + 1) =~= names@.take(i as int).push(names@[i as int]));
            assert(names_of(names@.take(i + 1)) =~= names_of(names@.take(i as int)).push(xs));
        }
        if !dup {
            let ghost before = names_of(res@);
            res.insert(p, names[i].clone());
            proof {
                let after = names_of(res@);
                assert(after =~= before.insert(p as int, xs));
                before.insert_ensures(p as int, xs);
                if p < before.len() {
                    lemma_lex_total(xs, before[p as int]);
                }
                assert forall|j: int| p <= j < before.len() implies lex_lt(xs, #[trigger] before[j]) by {
                    if j > p {
                        lemma_lex_transitive(xs, before[p as int], before[j]);
                    }
                }
                assert forall|a: int, b: int| 0 <= a < b < after.len() implies lex_lt(
                    #[trigger] after[a],
                    #[trigger] after[b],
                ) by {
                    if b < p {
                        assert(after[a] == before[a] && after[b] == before[b]);
                    } else if b == p {
                        assert(after[a] == before[a]);
                    } else if a < p {
                        assert(after[a] == before[a] && after[b] == before[b - 1]);
                        assert(lex_lt(xs, before[b - 1]));
                        lemma_lex_transitive(before[a], xs, before[b - 1]);
                    } else if a == p {
                        assert(after[b] == before[b - 1]);
                        assert(lex_lt(xs, before[b - 1]));
                    } else {
                        assert(after[a] == before[a - 1] && after[b] == before[b - 1]);
                    }
                }
                let prev = names_of(names@.take(i as int));
                let next = names_of(names@.take(i + 1));
                assert forall|y: Seq<char>| #[trigger] after.contains(y) implies next.contains(y) by {
                    let m = choose|m: int| 0 <= m < after.len() && after[m] == y;
                    if m < p {
                        assert(before.contains(before[m]));
                    } else if m == p {
                        assert(next[i as int] == xs);
                    } else {
                        assert(before.contains(before[m - 1]));
                    }
                    if y != xs {
                        assert(prev.contains(y));
                        let q = choose|q: int| 0 <= q < prev.len() && prev[q] == y;
                        assert(next[q] == y);
                    } else {
                        assert(next[i as int] == xs);
                    }
                }
                assert forall|y: Seq<char>| #[trigger] next.contains(y) implies after.contains(y) by {
                    let m = choose|m: int| 0 <= m < next.len() && next[m] == y;
                    if m == i {
                        assert(after[p as int] == xs);
                    } else {
                        assert(prev[m] == y);
                        assert(prev.contains(y));
                        assert(before.contains(y));
                        let q = choose|q: int| 0 <= q < before.len() && before[q] == y;
                        if q < p {
                            assert(after[q] == y);
                        } else {
                            assert(after[q + 1] == y);
                        }
                    }
                }
            }
        } else {
            proof {
                let prev = names_of(names@.take(i as int));
                let next = names_of(names@.take(i + 1));
                assert(rs.contains(rs[p as int]));
                assert forall|y: Seq<char>| #[trigger] rs.contains(y) implies next.contains(y) by {
                    assert(prev.contains(y));
                    let q = choose|q: int| 0 <= q < prev.len() && prev[q] == y;
                    assert(next[q] == y);
                }
                assert forall|y: Seq<char>| #[trigger] next.contains(y) implies rs.contains(y) by {
                    let m = choose|m: int| 0 <= m < next.len() && next[m] == y;
                    if m < i {
                        assert(prev[m] == y);
                        assert(prev.contains(y));
                    }
                }
            }
        }
        i += 1;
    }
    proof {
        assert(names@.take(names@.len() as int) =~= names@);
        lemma_distinct_sorted(names_of(res@), names_of(names@));
    }
    res
}

/// Every index below `n`, ascending.
pub open spec fn all_indices(n: nat) -> Seq<usize> {
    Seq::new(n, |i: int| i as usize)
}

/// The indices below `n` whose name is `target`, ascending.
pub open spec fn matching_indices(names: Seq<Seq<char>>, target: Seq<char>, n: nat) -> Seq<usize>
    decreases n,
{
    if n == 0 {
        seq![]
    } else {
        let rest = matching_indices(names, target, (n - 1) as nat);
        if names[n - 1] == target {
            rest.push((n - 1) as usize)
        } else {
            rest
        }
    }
}

/// The trend records that pass the server filter: all of them when the
/// filter is 0 (or names no server), else those of the selected server.
pub open spec fn filtered_indices(names: Seq<Seq<char>>, filter: usize) -> Seq<usize> {
    let servers = distinct_sorted(names);
    if filter == 0 || filter - 1 >= servers.len() {
        all_indices(names.len())
    } else {
        matching_indices(names, servers[filter - 1], names.len())
    }
}

/// The number of trends filter positions: every server plus "all".
pub open spec fn filter_options(names: Seq<Seq<char>>) -> int {
    distinct_sorted(names).len() as int + 1
}

/// What [`AppState::cycle_trends_filter`] needs so that the step does not
/// overflow.
pub open spec fn can_cycle_filter(s: AppState, delta: i64) -> bool {
    filter_options(names_of(s.trend_names@)) > 1 ==> (s.trends_filter <= i64::MAX && i64::MIN
        <= s.trends_filter + delta <= i64::MAX)
}

/// The state after cycling the trends filter by `delta`: unchanged when
/// there are no trend servers, else the filter moves Euclidean-modulo
/// the number of options and a redraw is requested.
pub open spec fn filter_cycled(s: AppState, delta: i64) -> AppState {
    let options = filter_options(names_of(s.trend_names@));
    if options <= 1 {
        s
    } else {
        AppState {
            trends_filter: cycled(s.trends_filter as int, delta as int, options) as usize,
            dirty: true,
            ..s
        }
    }
}

impl AppState {
    /// Unique server names present in the loaded trends, sorted.
    pub fn trend_servers(&self) -> (r: Vec<String>)
        ensures
            names_of(r@) == distinct_sorted(names_of(self.trend_names@)),
    {
        sorted_unique_names(&self.trend_names)
    }

    /// Cycles the trends server filter left or right over "all" and
    /// every trend server; with no trends there is nothing to cycle.
    pub fn cycle_trends_filter(&mut self, delta: i64)
        requires
            can_cycle_filter(*old(self), delta),
        ensures
            *final(self) == filter_cycled(*old(self), delta),
    {
        let servers = self.trend_servers();
        proof {
            assert(names_of(servers@).len() == servers@.len());
        }
        if servers.len() == 0 {
            return ;
        }
        let options = servers.len() as u128 + 1;
        self.trends_filter = cycle(self.trends_filter, delta, options);
        self.dirty = true;
    }

    /// The positions (in [`AppState::trend_names`]) of the trend records
    /// passing the current server filter, ascending.
    pub fn filtered_trends(&self) -> (r: Vec<usize>)
        ensures
            r@ == filtered_indices(names_of(self.trend_names@), self.trends_filter),
    {
        let n = self.trend_names.len();
        let servers = self.trend_servers();
        proof {
            assert(names_of(servers@).len() == servers@.len());
        }
        let mut r: Vec<usize> = Vec::new();
        if self.trends_filter == 0 || self.trends_filter - 1 >= servers.len() {
            let mut i: usize = 0;
            while i < n
                invariant
                    n == self.trend_names@.len(),
                    i <= n,
                    r@ =~= all_indices(i as nat),
                decreases n - i,
            {
                r.push(i);
                i += 1;
            }
        } else {
            let target = chars_of(servers[self.trends_filter - 1].as_str());
            let ghost t = names_of(servers@)[self.trends_filter - 1];
            let mut i: usize = 0;
            while i < n
                invariant
                    n == self.trend_names@.len(),
                    i <= n,
                    target@ == t,
                    r@ == matching_indices(names_of(self.trend_names@), t, i as nat),
                decreases n - i,
            {
                let name = chars_of(self.trend_names[i].as_str());
                assert(names_of(self.trend_names@)[i as int] == self.trend_names@[i as int]@);
                if slices_equal(&name, &target) {
                    r.push(i);
                }
                i += 1;
            }
        }
        r
    }
}

/// The trends filter always names a valid position: after cycling, it
/// is "all" or one of the trend servers.
pub proof fn law_trends_filter_in_range(pre: AppState, delta: i64)
    requires
        filter_options(names_of(pre.trend_names@)) > 1,
    ensures
        filter_cycled(pre, delta).trends_filter < filter_options(names_of(pre.trend_names@)),
{
}

// ── Settings screen ──────────────────────────────────────────────────────────

/// The settings after one adjustment step of the row under the cursor,
/// with the same clamps the config loader enforces. The animation speed
/// row (2) holds a float that the front end adjusts; here it changes
/// nothing.
pub open spec fn setting_adjusted(pre: AppState, post: AppState, delta: i64) -> bool {
    let up = delta > 0;
    let s = pre.settings;
    let e = s.engine;
    match pre.settings_cursor {
        0 => {
            let count = if pre.theme_names@.len() > 0 {
                pre.theme_names@.len() as int
            } else {
                1
            };
            let idx = cycled(pre.theme_index as int, delta as int, count);
            &&& post.theme_index == idx
            &&& post.theme_cursor == idx
            &&& idx < pre.theme_names@.len() ==> post.settings.theme@ == lowercase(
                pre.theme_names@[idx]@,
            )
            &&& idx >= pre.theme_names@.len() ==> post.settings.theme == s.theme
            &&& post.settings == Settings { theme: post.settings.theme, ..s }
        },
        1 => {
            &&& post.theme_index == pre.theme_index && post.theme_cursor == pre.theme_cursor
            &&& post.settings == Settings {
                refresh_rate: stepped(s.refresh_rate as int, 5, 60, 5, up) as u16,
                ..s
            }
        },
        2 => {
            &&& post.theme_index == pre.theme_index && post.theme_cursor == pre.theme_cursor
            &&& post.settings == s
        },
        3 => {
            &&& post.theme_index == pre.theme_index && post.theme_cursor == pre.theme_cursor
            &&& post.settings == Settings {
                engine: crate::config::EngineSection {
                    ping_samples: stepped(e.ping_samples as int, 3, 100, 1, up) as u32,
                    ..e
                },
                ..s
            }
        },
        4 => {
            &&& post.theme_index == pre.theme_index && post.theme_cursor == pre.theme_cursor
            &&& post.settings == Settings {
                engine: crate::config::EngineSection {
                    duration_secs: stepped(e.duration_secs as int, 3, 60, 1, up) as u64,
                    ..e
                },
                ..s
            }
        },
        5 => {
            &&& post.theme_index == pre.theme_index && post.theme_cursor == pre.theme_cursor
            &&& post.settings == Settings {
                engine: crate::config::EngineSection {
                    connections: stepped(e.connections as int, 1, 16, 1, up) as usize,
                    ..e
                },
                ..s
            }
        },
        6 => {
            &&& post.theme_index == pre.theme_index && post.theme_cursor == pre.theme_cursor
            &&& post.settings == Settings {
                engine: crate::config::EngineSection {
                    timeout_secs: stepped(e.timeout_secs as int, 2, 120, 1, up) as u64,
                    ..e
                },
                ..s
            }
        },
        _ => {
            &&& post.theme_index == pre.theme_index && post.theme_cursor == pre.theme_cursor
            &&& post.settings == Settings {
                engine: crate::config::EngineSection {
                    upload_chunk_kb: stepped(e.upload_chunk_kb as int, 64, 8192, 64, up) as usize,
                    ..e
                },
                ..s
            }
        },
    }
}

/// What [`AppState::adjust_setting`] needs so that no step overflows.
pub open spec fn can_adjust(s: AppState, delta: i64) -> bool {
    let up = delta > 0;
    let e = s.settings.engine;
    match s.settings_cursor {
        0 => s.theme_index <= i64::MAX && i64::MIN <= s.theme_index + delta <= i64::MAX,
        4 => up ==> e.duration_secs + 1 <= u64::MAX,
        5 => up ==> e.connections + 1 <= u64::MAX,
        6 => up ==> e.timeout_secs + 1 <= u64::MAX,
        1 | 2 | 3 => true,
        _ => up ==> e.upload_chunk_kb + 64 <= u64::MAX,
    }
}

impl AppState {
    /// Number of editable rows on the settings screen.
    pub const SETTINGS_ROWS: usize = 8;

    /// Adjusts the setting under the cursor by one step, within the same
    /// clamps the config loader enforces.
    pub fn adjust_setting(&mut self, delta: i64)
        requires
            can_adjust(*old(self), delta),
        ensures
            setting_adjusted(*old(self), *final(self), delta),
            final(self).needs_redraw(),
            final(self).screen == old(self).screen,
            final(self).return_to == old(self).return_to,
            final(self).same_except_nav(*old(self)),
            final(self).server_index == old(self).server_index,
            final(self).server_cursor == old(self).server_cursor,
            final(self).trends_filter == old(self).trends_filter,
            final(self).settings_cursor == old(self).settings_cursor,
    {
        let up = delta > 0;
        match self.settings_cursor {
            0 => {
                let count = if self.theme_names.len() > 0 {
                    self.theme_names.len()
                } else {
                    1
                };
                self.theme_index = cycle(self.theme_index, delta, count as u128);
                self.theme_cursor = self.theme_index;
                if self.theme_index < self.theme_names.len() {
                    let name = to_lowercase(self.theme_names[self.theme_index].as_str());
                    self.settings.theme = name;
                }
            },
            1 => {
                self.settings.refresh_rate = step_u64(self.settings.refresh_rate as u64, 5, 60, 5, up) as u16;
            },
            2 => {},
            3 => {
                self.settings.engine.ping_samples = step_u64(
                    self.settings.engine.ping_samples as u64,
                    3,
                    100,
                    1,
                    up,
                ) as u32;
            },
            4 => {
                self.settings.engine.duration_secs = step_u64(
                    self.settings.engine.duration_secs,
                    3,
                    60,
                    1,
                    up,
                );
            },
            5 => {
                self.settings.engine.connections = step_u64(
                    self.settings.engine.connections as u64,
                    1,
                    16,
                    1,
                    up,
                ) as usize;
            },
            6 => {
                self.settings.engine.timeout_secs = step_u64(
                    self.settings.engine.timeout_secs,
                    2,
                    120,
                    1,
                    up,
                );
            },
            _ => {
                self.settings.engine.upload_chunk_kb = step_u64(
                    self.settings.engine.upload_chunk_kb as u64,
                    64,
                    8192,
                    64,
                    up,
                ) as usize;
            },
        }
        self.request_redraw();
    }
}

/// Adjusting a setting keeps the engine values within the clamps that
/// the configuration loader enforces: values already in range stay in
/// range.
pub proof fn law_adjust_setting_keeps_engine_in_range(pre: AppState, post: AppState, delta: i64)
    requires
        engine_in_range(pre.settings.engine),
        setting_adjusted(pre, post, delta),
    ensures
        engine_in_range(post.settings.engine),
        5 <= pre.settings.refresh_rate <= 60 ==> 5 <= post.settings.refresh_rate <= 60,
{
}

/// The adjusted setting always ends within the clamps the configuration
/// loader enforces, whatever its value was before (a 100 s duration
/// stepped down becomes 60 s).
pub proof fn law_adjusted_setting_within_clamps(pre: AppState, post: AppState, delta: i64)
    requires
        setting_adjusted(pre, post, delta),
    ensures
        pre.settings_cursor == 1 ==> 5 <= post.settings.refresh_rate <= 60,
        pre.settings_cursor == 3 ==> 3 <= post.settings.engine.ping_samples <= 100,
        pre.settings_cursor == 4 ==> 3 <= post.settings.engine.duration_secs <= 60,
        pre.settings_cursor == 5 ==> 1 <= post.settings.engine.connections <= 16,
        pre.settings_cursor == 6 ==> 2 <= post.settings.engine.timeout_secs <= 120,
        pre.settings_cursor >= 7 ==> 64 <= post.settings.engine.upload_chunk_kb <= 8192,
{
}

/// Engine events bring the matching screen forward: a starting phase
/// shows the testing screen and a finished test shows the results, each
/// unless an overlay is open (which then stays); a failure always shows
/// the error screen. A finished or failed test is no longer running and
/// leaves no phase current; only a finished one has a report.
pub proof fn law_engine_events_drive_screens(pre: AppState, post: AppState, event: EngineEvent)
    requires
        event_applied(pre, post, event),
    ensures
        event is Finished && !overlay(pre.screen) ==> post.screen == Screen::Results,
        event is PhaseStarted && !overlay(pre.screen) ==> post.screen == Screen::Testing,
        (event is Finished || event is PhaseStarted) && overlay(pre.screen) ==> post.screen
            == pre.screen,
        event is Failed ==> post.screen == Screen::Error,
        event is Finished ==> post.has_report && !post.testing && post.phase is None,
        event is Failed ==> !post.testing && post.phase is None && post.has_report
            == pre.has_report,
        event is Finished || event is Failed || event is PhaseStarted ==> post.needs_redraw(),
        !(event is Finished || event is Failed || event is PhaseStarted) ==> post.screen
            == pre.screen,
{
}

} // verus!
