use m365_copilot_proxy::bootstrap::BootstrapReport;
use m365_copilot_proxy::browsers::DetectedBrowser;
use m365_copilot_proxy::config::{AppConfig, ServeOverrides};
use m365_copilot_proxy::keys::Key;
use m365_copilot_proxy::logging::{
    log_banner, log_format, should_skip_event, unquote, LogBuffer, LogFormat, LogLevel, LogLine,
    LogVisitor,
};
use m365_copilot_proxy::onboarding::{
    announcement, help_line, maybe_run_onboarding, needs_onboarding, on_off, EditField,
    OnboardState, SetupPlan, Step,
};
use m365_copilot_proxy::platform::Os;
use m365_copilot_proxy::runtime_status::{RuntimeStatus, ServicePhase};
use m365_copilot_proxy::token_store::{token_status_at, TokenStatus};
use m365_copilot_proxy::tray::{
    build_icon, health_url, menu_action, spawn_tray, tray_supported, MenuAction, TrayPlan,
};
use m365_copilot_proxy::tui::{
    level_color, level_label, log_title, phase_color, token_color, token_label, truncate_line,
    visible_logs, Tone, TuiContext, TuiState, UiAction,
};

fn browser(label: &str, path: &str) -> DetectedBrowser {
    DetectedBrowser { label: label.to_string(), path: path.to_string() }
}

fn wizard(executable: Option<&str>) -> OnboardState {
    let mut config = AppConfig::default();
    config.edge.executable = executable.map(|s| s.to_string());
    OnboardState::new(config, vec![browser("One", "/one"), browser("Two", "/two")], Os::Linux)
}

fn press(state: &mut OnboardState, keys: &[Key]) -> bool {
    let mut confirmed = false;
    for key in keys {
        confirmed = state.handle_key(*key, false);
    }
    confirmed
}

fn typed(state: &mut OnboardState, s: &str) {
    for c in s.chars() {
        state.handle_key(Key::Char(c), false);
    }
}

#[test]
fn the_wizard_runs_at_the_first_start() {
    let made = BootstrapReport { config_path: None, config_created: true, env_example_created: false };
    let found = BootstrapReport::default();
    let mut config = AppConfig::default();
    let plain = ServeOverrides::default();
    let skip = ServeOverrides { skip_onboarding: true, ..Default::default() };
    assert!(needs_onboarding(&made) && !needs_onboarding(&found));
    assert_eq!(maybe_run_onboarding(&made, &plain, &config, true), SetupPlan::Run);
    assert_eq!(maybe_run_onboarding(&made, &skip, &config, true), SetupPlan::Keep);
    assert_eq!(maybe_run_onboarding(&found, &plain, &config, true), SetupPlan::Keep);
    assert_eq!(maybe_run_onboarding(&made, &plain, &config, false), SetupPlan::Announce);
    config.ui.tui = false;
    assert_eq!(maybe_run_onboarding(&made, &plain, &config, true), SetupPlan::Announce);
    assert_eq!(
        announcement("/c"),
        "First run: configuration written to /c.\nRun `copilot-openai-proxy onboard` to configure interactively.\n"
    );
}

#[test]
fn the_configured_browser_is_chosen_at_first() {
    assert_eq!(wizard(None).browser_choice, 0);
    assert_eq!(wizard(Some("/two")).browser_choice, 2);
    assert_eq!(wizard(Some("//two/")).browser_choice, 2);
    let custom = wizard(Some("/own"));
    assert_eq!((custom.browser_choice, custom.custom_browser_path.as_str()), (3, "/own"));
    let mac = OnboardState::new(AppConfig::default(), Vec::new(), Os::Macos);
    assert!(!mac.config.ui.tray);
}

#[test]
fn a_walk_through_the_wizard() {
    let mut s = wizard(None);
    assert_eq!(s.step, Step::Welcome);
    press(&mut s, &[Key::Tab, Key::Enter]);
    assert_eq!(s.step, Step::Browser);
    press(&mut s, &[Key::Up, Key::Down, Key::Char('j'), Key::Enter]);
    assert_eq!((s.browser_choice, s.step), (2, Step::Server));
    press(&mut s, &[Key::Down, Key::Enter]);
    assert_eq!(s.editing, Some(EditField::Port));
    press(&mut s, &[Key::Backspace, Key::Backspace, Key::Backspace, Key::Backspace]);
    typed(&mut s, "90x90");
    press(&mut s, &[Key::Enter]);
    assert_eq!(s.config.server.port, 9090);
    press(&mut s, &[Key::Down, Key::Down, Key::Down]);
    assert_eq!(s.option_idx, 2);
    press(&mut s, &[Key::Right]);
    assert_eq!((s.step, s.option_idx), (Step::Options, 0));
    press(&mut s, &[Key::Down, Key::Char(' ')]);
    assert!(!s.config.token.auto_refresh);
    assert!(!press(&mut s, &[Key::Char('l')]));
    assert_eq!(s.step, Step::Confirm);
    assert!(press(&mut s, &[Key::Enter]));
    assert_eq!(s.ends(true), Some(true));
    let config = s.conclude(true, None).unwrap();
    assert_eq!(config.edge.executable.as_deref(), Some("/two"));
}

#[test]
fn fields_left_empty_get_their_defaults() {
    let mut s = wizard(None);
    s.step = Step::Server;
    s.config.server.host = "h".to_string();
    press(&mut s, &[Key::Enter, Key::Backspace, Key::Backspace, Key::Enter]);
    assert_eq!(s.config.server.host, "127.0.0.1");
    s.option_idx = 1;
    s.config.server.port = 7;
    press(&mut s, &[Key::Enter, Key::Backspace, Key::Enter]);
    assert_eq!(s.config.server.port, 8000);
    s.option_idx = 2;
    press(&mut s, &[Key::Enter, Key::Backspace, Key::Backspace, Key::Backspace, Key::Backspace, Key::Enter]);
    assert_eq!(s.config.edge.cdp_port, 9222);
    s.option_idx = 1;
    press(&mut s, &[Key::Enter, Key::Backspace, Key::Backspace, Key::Backspace, Key::Backspace, Key::Esc]);
    assert_eq!((s.config.server.port, s.editing), (0, None));
}

#[test]
fn ports_stop_at_the_highest() {
    let mut s = wizard(None);
    s.step = Step::Server;
    s.option_idx = 1;
    s.config.server.port = 6553;
    press(&mut s, &[Key::Enter, Key::Char('9')]);
    assert_eq!(s.config.server.port, 65535);
    s.config.server.port = 65535;
    press(&mut s, &[Key::Char('0')]);
    assert_eq!(s.config.server.port, 65535);
}

#[test]
fn control_characters_are_not_typed() {
    let mut s = wizard(None);
    s.step = Step::Server;
    press(&mut s, &[Key::Enter]);
    s.handle_key(Key::Char('x'), true);
    assert_eq!(s.config.server.host, "127.0.0.1");
    s.handle_key(Key::Char('q'), false);
    assert_eq!(s.config.server.host, "127.0.0.1q");
    assert!(!s.cancelled);
}

#[test]
fn a_path_of_ones_own_and_a_download() {
    let mut s = wizard(None);
    press(&mut s, &[Key::Enter, Key::Down, Key::Down, Key::Down, Key::Enter]);
    assert_eq!(s.editing, Some(EditField::CustomBrowserPath));
    typed(&mut s, " /own ");
    assert!(s.lines(Os::Linux)[3].ends_with("Custom path:  /own _"));
    press(&mut s, &[Key::Enter]);
    assert_eq!(s.step, Step::Server);
    assert!(!s.wants_download());
    assert_eq!(s.browser_summary(), " /own ");
    assert_eq!(s.conclude(true, None).unwrap().edge.executable.as_deref(), Some("/own"));

    let mut s = wizard(Some("/one"));
    s.browser_choice = 3;
    s.custom_browser_path = "  ".to_string();
    assert_eq!(s.browser_summary(), "auto-detect");
    assert_eq!(s.conclude(true, None).unwrap().edge.executable, None);

    let mut s = wizard(None);
    press(&mut s, &[Key::Enter, Key::Down, Key::Down, Key::Down, Key::Down, Key::Down, Key::Enter]);
    assert_eq!(s.step, Step::Server);
    assert!(s.wants_download());
    assert_eq!(s.browser_summary(), "download Chromium");
    let config = s.conclude(true, Some("/new".to_string())).unwrap();
    assert_eq!(config.edge.executable.as_deref(), Some("/new"));
}

#[test]
fn leaving_the_wizard_saves_nothing() {
    let mut s = wizard(None);
    assert!(!press(&mut s, &[Key::Char('q')]));
    assert!(s.cancelled);
    assert_eq!(s.ends(false), Some(false));
    for step in [Step::Welcome, Step::Browser, Step::Server, Step::Options, Step::Confirm] {
        let mut left = wizard(None);
        left.step = step;
        assert_eq!(left.ends(false), None);
        let confirmed = press(&mut left, &[Key::Esc]);
        assert_eq!(left.ends(confirmed), Some(false));
    }
    s.step = Step::Confirm;
    assert!(press(&mut s, &[Key::Enter]));
    assert_eq!(s.ends(true), Some(false));
    assert_eq!(s.conclude(true, None).err().as_deref(), Some("onboarding cancelled"));
    assert_eq!(wizard(None).conclude(false, None).err().as_deref(), Some("onboarding cancelled"));
}

#[test]
fn pages_of_the_wizard() {
    let mut s = wizard(None);
    assert_eq!(s.lines(Os::Linux).len(), 8);
    s.step = Step::Browser;
    assert_eq!(
        s.lines(Os::Linux),
        [
            "▸ Auto-detect (recommended)",
            "  One — /one",
            "  Two — /two",
            "  Custom path...",
            "  Download Chromium (~150 MB)",
        ]
    );
    s.browser_choice = 3;
    assert_eq!(s.lines(Os::Linux)[3], "▸ Custom path: (Enter to type)");
    s.step = Step::Server;
    assert_eq!(
        s.lines(Os::Linux),
        ["▸ HTTP host: 127.0.0.1", "  HTTP port: 8000", "  CDP port: 9222"]
    );
    s.editing = Some(EditField::Host);
    assert_eq!(s.lines(Os::Linux)[0], "▸ HTTP host: 127.0.0.1_");
    s.editing = None;
    s.step = Step::Options;
    let lines = s.lines(Os::Macos);
    assert_eq!(lines[0], "▸ Launch browser on start: on");
    assert_eq!(lines[4], "  System tray icon: on");
    assert_eq!(lines.len(), 7);
    assert_eq!(s.lines(Os::Linux).len(), 6);
    s.step = Step::Confirm;
    s.browser_choice = 1;
    assert_eq!(
        s.lines(Os::Linux)[2..7],
        [
            "  Browser: One",
            "  Listen:  http://127.0.0.1:8000",
            "  CDP:     :9222",
            "  Token:   auto-refresh on, capture on start on",
            "  UI:      TUI on, tray on",
        ]
    );
    let empty = OnboardState { browsers: Vec::new(), step: Step::Browser, browser_choice: 0, ..s };
    assert_eq!(
        empty.lines(Os::Linux)[1],
        "  (no browsers found — install Chrome/Edge or use Playwright)"
    );
    assert_eq!(help_line(Step::Confirm), " Enter  save & start   q  cancel ");
    assert_eq!((on_off(true), on_off(false)), ("on", "off"));
}

#[test]
fn the_log_keeps_the_latest_lines() {
    let mut buffer = LogBuffer::new();
    buffer.push("INFO", String::new());
    assert!(buffer.lines().is_empty());
    for i in 0..250 {
        buffer.push("INFO", format!("line {i}"));
    }
    let lines = buffer.lines();
    assert_eq!(lines.len(), 200);
    assert_eq!(lines[0].message, "line 50");
    assert_eq!(lines[199].message, "line 249");
    buffer.push("WARN", String::new());
    assert_eq!(buffer.lines().len(), 200);
    assert_eq!(buffer.lines()[199].message, "line 249");
}

fn event(fields: &[(&str, &str)]) -> LogVisitor {
    let mut visitor = LogVisitor::new();
    for (name, value) in fields {
        visitor.record_field(name, value.to_string());
    }
    visitor
}

#[test]
fn events_read_as_requests_or_messages() {
    assert_eq!(event(&[("message", "m")]).format(), "m");
    assert_eq!(event(&[("method", "GET"), ("uri", "/x")]).format(), "GET /x");
    assert_eq!(
        event(&[("method", "GET"), ("uri", "/x"), ("status", "200"), ("latency_ms", "3")]).format(),
        "GET /x → 200 (3ms)"
    );
    assert_eq!(event(&[("other", "x")]).format(), "");
}

#[test]
fn noise_is_not_kept() {
    assert!(should_skip_event("app", &event(&[("message", "close, time.busy=1")])));
    assert!(should_skip_event("app", &event(&[("message", "x time.busy y")])));
    assert!(should_skip_event("hyper::proto", &event(&[("message", "m")])));
    assert!(should_skip_event("h2", &event(&[("message", "m")])));
    assert!(should_skip_event("app", &event(&[])));
    assert!(!should_skip_event("app", &event(&[("method", "GET")])));
    let mut buffer = LogBuffer::new();
    buffer.on_event(LogLevel::Debug, "app", &event(&[("message", "m")]));
    buffer.on_event(LogLevel::Info, "hyper", &event(&[("message", "m")]));
    buffer.on_event(LogLevel::Warn, "app", &event(&[("message", "kept")]));
    let lines = buffer.lines();
    assert_eq!(lines.len(), 1);
    assert_eq!((lines[0].level.as_str(), lines[0].message.as_str()), ("WARN", "kept"));
}

#[test]
fn log_settings() {
    assert_eq!(log_format("json"), LogFormat::Json);
    assert_eq!(log_format("compact"), LogFormat::Compact);
    assert_eq!(log_format("other"), LogFormat::Pretty);
    for s in ["\"a\"", "\"\"a\"b\"", "plain", "\"", ""] {
        assert_eq!(unquote(s), s.trim_matches('"'));
    }
    assert!(log_banner().starts_with("Microsoft 365 Copilot OpenAI Proxy"));
}

#[test]
fn keys_of_the_dashboard() {
    let mut t = TuiState::new();
    assert_eq!(t.handle_key(Key::Char('q'), false), Some(UiAction::Quit));
    assert_eq!(t.handle_key(Key::Char('c'), true), Some(UiAction::Quit));
    assert_eq!(t.handle_key(Key::Char('c'), false), None);
    assert_eq!(t.handle_key(Key::Char('R'), false), Some(UiAction::RefreshToken));
    assert_eq!(t.handle_key(Key::Char('e'), false), Some(UiAction::LaunchEdge));
    t.handle_key(Key::Up, false);
    assert_eq!(t.scroll, 0);
    t.handle_key(Key::PageDown, false);
    t.handle_key(Key::Char('j'), false);
    t.handle_key(Key::Char('k'), false);
    t.handle_key(Key::Char('k'), false);
    assert_eq!(t.scroll, 9);
    t.follow(5);
    assert_eq!((t.scroll, t.last_line_count), (14, 5));
    t.follow(3);
    assert_eq!((t.scroll, t.last_line_count), (14, 3));
    t.scroll = u16::MAX;
    t.handle_key(Key::Down, false);
    assert_eq!(t.scroll, u16::MAX);
    t.handle_key(Key::PageUp, false);
    assert_eq!(t.scroll, u16::MAX - 10);
}

#[test]
fn what_the_dashboard_shows() {
    assert_eq!(truncate_line("hello", 5), "hello");
    assert_eq!(truncate_line("hello!", 5), "hell…");
    assert_eq!(truncate_line("hello", 0), "");
    assert_eq!(truncate_line("héllo", 1), "…");
    assert_eq!(level_label("info"), "INFO  ");
    assert_eq!(level_label("Warning"), "WARNING ");
    assert_eq!(level_color("error"), Tone::Red);
    assert_eq!(level_color("warning"), Tone::Yellow);
    assert_eq!(level_color("Info"), Tone::Cyan);
    assert_eq!(level_color("trace"), Tone::DarkGray);
    assert_eq!(level_color("other"), Tone::White);
    assert_eq!(phase_color(ServicePhase::Ready), Tone::Green);
    assert_eq!(phase_color(ServicePhase::CaptureFailed), Tone::Red);
    assert_eq!(phase_color(ServicePhase::WaitingForEdge), Tone::Yellow);
    assert_eq!(log_title(4, 9), "Logs (5/9)");
    let broken = token_status_at("x", 0);
    assert_eq!(token_label(&broken), "Cannot decode access token: invalid JWT");
    assert_eq!(token_color(&broken), Tone::Red);
    let expired =
        TokenStatus { valid: false, error: None, expires_at: None, seconds_remaining: 0 };
    assert_eq!(token_label(&expired), "missing or expired");
    let valid = TokenStatus { valid: true, error: None, expires_at: None, seconds_remaining: 7 };
    assert_eq!(token_label(&valid), "valid · 7s remaining");
    let context = TuiContext {
        config: AppConfig::default(),
        listen_addr: "127.0.0.1:8000".to_string(),
        phase: ServicePhase::Ready,
    };
    assert_eq!(
        context.status_lines(&valid),
        [
            "ready",
            "http://127.0.0.1:8000",
            "m365-copilot",
            "valid · 7s remaining",
            "CDP :9222 · headless when authed · auto-refresh on · capture on",
            "on",
        ]
    );
}

#[test]
fn the_log_is_shown_from_where_it_is_scrolled_to() {
    let logs: Vec<LogLine> = (0..5)
        .map(|i| LogLine { level: "INFO".to_string(), message: format!("line {i}") })
        .collect();
    let shown = visible_logs(&logs, 1, 2, 5);
    assert_eq!(shown.len(), 2);
    assert_eq!(shown[0].message, "line…");
    assert_eq!(visible_logs(&logs, 4, 10, 80)[0].message, "line 4");
    assert!(visible_logs(&logs, 9, 10, 80).is_empty());
    assert!(visible_logs(&logs, 0, 0, 80).is_empty());
}

#[test]
fn phases_have_labels() {
    let mut status = RuntimeStatus::new();
    assert_eq!(status.phase().label(), "ready");
    status.set_phase(ServicePhase::CaptureFailed);
    status.set_phase(ServicePhase::WaitingForEdge);
    assert_eq!(status.phase().label(), "waiting for Edge M365 tab");
    assert_eq!(
        ServicePhase::CapturingToken.label(),
        "capturing token — click Copilot box, type 1 char"
    );
    assert_eq!(ServicePhase::CaptureFailed.label(), "token capture failed — run set-token");
    assert_eq!(ServicePhase::default(), ServicePhase::Ready);
}

#[test]
fn the_tray() {
    let mut config = AppConfig::default();
    assert!(!tray_supported(Os::Macos) && tray_supported(Os::Linux));
    assert_eq!(spawn_tray(&config, Os::Linux), TrayPlan::Show);
    assert_eq!(spawn_tray(&config, Os::Macos), TrayPlan::Unsupported);
    config.ui.tray = false;
    assert_eq!(spawn_tray(&config, Os::Macos), TrayPlan::Off);
    assert_eq!(health_url("h:1"), "http://h:1/healthz");
    assert_eq!(menu_action("quit"), MenuAction::Ask(UiAction::Quit));
    assert_eq!(menu_action("refresh"), MenuAction::Ask(UiAction::RefreshToken));
    assert_eq!(menu_action("edge"), MenuAction::Ask(UiAction::LaunchEdge));
    assert_eq!(menu_action("open"), MenuAction::OpenHealth);
    assert_eq!(menu_action("other"), MenuAction::Nothing);
    let icon = build_icon();
    assert_eq!(icon.len(), 22 * 22 * 4);
    assert_eq!(icon[0..4], [30, 96, 168, 255]);
    assert_eq!(icon[(22 + 1) * 4..(22 + 1) * 4 + 4], [70, 140, 220, 255]);
    assert_eq!(icon[(22 + 21) * 4..(22 + 21) * 4 + 4], [30, 96, 168, 255]);
}

#[test]
fn what_is_done_in_the_wizard_can_be_taken_back() {
    let mut s = wizard(None);
    s.step = Step::Options;
    for option in 0..5 {
        s.option_idx = option;
        let before = s.lines(Os::Linux);
        press(&mut s, &[Key::Enter]);
        assert_ne!(s.lines(Os::Linux), before);
        press(&mut s, &[Key::Char(' ')]);
        assert_eq!(s.lines(Os::Linux), before);
    }
    s.step = Step::Server;
    s.option_idx = 2;
    press(&mut s, &[Key::Enter]);
    s.config.edge.cdp_port = 922;
    press(&mut s, &[Key::Char('7')]);
    assert_eq!(s.config.edge.cdp_port, 9227);
    press(&mut s, &[Key::Backspace]);
    assert_eq!(s.config.edge.cdp_port, 922);
}

#[test]
fn scrolling_down_and_up_leads_back() {
    let mut t = TuiState::new();
    t.scroll = 4;
    t.handle_key(Key::Down, false);
    t.handle_key(Key::Up, false);
    assert_eq!(t.scroll, 4);
}
