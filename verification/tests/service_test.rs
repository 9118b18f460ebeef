use base64::engine::general_purpose::URL_SAFE_NO_PAD;
use base64::Engine;
use m365_copilot_proxy::cdp::{
    after_answer, after_attempt, capture_next, capture_start, gather_message, listen_step,
    network_message, nudge_messages, page_debugger, read_token_from, set_token_from_input,
    tabs_address, token_from_address, token_from_event, token_from_page, write_token_to,
    AfterAnswer, AfterAttempt, Attempt, CaptureAction, CaptureState, ListenStep, CDP_JS,
    CDP_NUDGE_JS, NUDGE_SECONDS,
};
use m365_copilot_proxy::config::AppConfig;
use m365_copilot_proxy::copilot::FakeCopilotClient;
use m365_copilot_proxy::doctor::{
    browser_tabs_address, format_bind_error, run_doctor, CdpAnswer, Findings,
};
use m365_copilot_proxy::json::{parse_json, Json};
use m365_copilot_proxy::runtime::{
    after_action, auto_refresh_step, capture_token_interactive, first_phase, phase_after_refresh,
    plan_round, round_phase, serve_next, AfterAction, RefreshStep, ServeEvent, ServeState,
};
use m365_copilot_proxy::runtime_status::ServicePhase;
use m365_copilot_proxy::session_store::PersistentSession;
use m365_copilot_proxy::tui::UiAction;

fn jwt(payload: &str) -> String {
    format!("eyJ0.{}.s", URL_SAFE_NO_PAD.encode(payload))
}

fn token(exp: i64) -> String {
    jwt(&format!("{{\"aud\":\"https://substrate.office.com/x\",\"exp\":{exp}}}"))
}

#[test]
fn the_debugger_of_the_page() {
    let page = |extra: &str| {
        parse_json(&format!(
            "{{\"type\":\"page\",\"url\":\"https://m365.cloud.microsoft/chat\"{extra}}}"
        ))
        .unwrap()
    };
    assert_eq!(
        page_debugger(&[Json::Null, page(",\"webSocketDebuggerUrl\":\"ws://x\"")]).as_deref(),
        Some("ws://x")
    );
    assert_eq!(page_debugger(&[page("")]), None);
    assert_eq!(page_debugger(&[]), None);
    assert_eq!(tabs_address(9222), "http://localhost:9222/json");
}

#[test]
fn messages_to_the_browser() {
    let gather = parse_json(&gather_message()).unwrap();
    assert_eq!(gather.get_i64("id"), Some(1));
    assert_eq!(gather.get_str("method"), Some("Runtime.evaluate"));
    assert_eq!(gather.get("params").unwrap().get_str("expression"), Some(CDP_JS));
    assert_eq!(network_message(1), "{\"id\":1,\"method\":\"Network.enable\"}");
    let nudge = nudge_messages();
    assert_eq!(nudge.len(), 5);
    assert_eq!(nudge[0], "{\"id\":2,\"method\":\"Network.enable\"}");
    let focus = parse_json(&nudge[1]).unwrap();
    assert_eq!(focus.get("params").unwrap().get_str("expression"), Some(CDP_NUDGE_JS));
    assert_eq!(
        nudge[2],
        "{\"id\":4,\"method\":\"Input.insertText\",\"params\":{\"text\":\" \"}}"
    );
    assert_eq!(
        nudge[4],
        "{\"id\":6,\"method\":\"Input.dispatchKeyEvent\",\"params\":{\"code\":\"Backspace\",\"key\":\"Backspace\",\"nativeVirtualKeyCode\":8,\"type\":\"keyUp\",\"windowsVirtualKeyCode\":8}}"
    );
}

#[test]
fn tokens_from_the_page() {
    let good = token(9);
    let answer = format!(
        "{{\"result\":{{\"result\":{{\"value\":[1,\"eyJ\",\"{good}\",\"{}\"]}}}}}}",
        token(8)
    );
    assert_eq!(token_from_page(&answer), Some(good.clone()));
    for raw in ["x", "{}", "{\"result\":{\"result\":{\"value\":\"s\"}}}"] {
        assert_eq!(token_from_page(raw), None);
        assert!(matches!(after_answer(Some(raw), true), AfterAnswer::Nudge));
        assert!(matches!(after_answer(Some(raw), false), AfterAnswer::GiveUp));
    }
    assert!(matches!(after_answer(Some(&answer), false), AfterAnswer::Found(t) if t == good));
    assert!(matches!(after_answer(None, true), AfterAnswer::Nudge));
}

#[test]
fn listening_takes_the_first_token() {
    let good = token(9);
    let event = format!(
        "{{\"method\":\"Network.webSocketCreated\",\"params\":{{\"url\":\
         \"wss://substrate.office.com/m?access_token={good}\"}}}}"
    );
    for left in [0, 5] {
        assert!(matches!(listen_step(left, Some(&event)), ListenStep::Found(t) if t == good));
    }
    for raw in [None, Some("x"), Some("{}")] {
        assert!(matches!(listen_step(5, raw), ListenStep::Again(1)));
        assert!(matches!(listen_step(1, raw), ListenStep::Again(1)));
        assert!(matches!(listen_step(0, raw), ListenStep::GiveUp));
    }
    assert_eq!(NUDGE_SECONDS, 10);
}

#[test]
fn another_round_follows_a_refresh() {
    let ask = |action| serve_next(ServeState::Serving, ServicePhase::Ready, ServeEvent::Asked(action));
    let (state, phase) = ask(UiAction::RefreshToken);
    assert_eq!((state, phase), (ServeState::Refreshing, ServicePhase::CapturingToken));
    assert_eq!(
        serve_next(state, phase, ServeEvent::Refreshed(true)),
        (ServeState::Serving, ServicePhase::Ready)
    );
    assert_eq!(
        serve_next(state, phase, ServeEvent::Refreshed(false)),
        (ServeState::Serving, ServicePhase::CaptureFailed)
    );
    assert_eq!(ask(UiAction::LaunchEdge), (ServeState::Serving, ServicePhase::Ready));
    let stopped = ask(UiAction::Quit);
    assert_eq!(stopped, (ServeState::Stopped, ServicePhase::Ready));
    assert_eq!(
        serve_next(stopped.0, stopped.1, ServeEvent::Asked(UiAction::RefreshToken)),
        stopped
    );
}

#[test]
fn the_tabs_that_the_check_asks_for() {
    assert_eq!(browser_tabs_address(9222), "http://127.0.0.1:9222/json");
}

#[test]
fn tokens_from_connections() {
    let good = token(9);
    let url = format!("wss://substrate.office.com/m?a=1&access_token={good}&b=2");
    assert_eq!(token_from_address(&url), Some(good.clone()));
    let first = format!("wss://substrate.office.com/m?access_token=&access_token={good}");
    assert_eq!(token_from_address(&first), Some(good.clone()));
    assert_eq!(token_from_address(&url.replace("substrate", "other")), None);
    assert_eq!(token_from_address("wss://substrate.office.com/m?access_token=eyJ"), None);
    assert_eq!(
        token_from_address(&format!("wss://substrate.office.com/xaccess_token={good}")),
        None
    );
    let event = |method: &str| {
        format!("{{\"method\":\"{method}\",\"params\":{{\"url\":\"{url}\"}}}}")
    };
    assert_eq!(token_from_event(&event("Network.webSocketCreated")), Some(good));
    assert_eq!(token_from_event(&event("Network.webSocketClosed")), None);
    assert_eq!(token_from_event("{\"method\":\"Network.webSocketCreated\"}"), None);
    assert_eq!(token_from_event("x"), None);
}

#[test]
fn pasted_tokens() {
    let good = token(9);
    let written = format!("M365_ACCESS_TOKEN={good}\n");
    let url = format!("wss://substrate.office.com/m?x&access_token={good}&variants=1");
    assert_eq!(set_token_from_input(&url, None).unwrap(), written);
    assert_eq!(set_token_from_input(&format!("  {good}\n"), None).unwrap(), written);
    assert_eq!(
        set_token_from_input(&format!("access_token={good} rest"), Some("A=1\n")).unwrap(),
        format!("A=1\n{written}")
    );
    assert_eq!(
        set_token_from_input("nothing", None).err().as_deref(),
        Some("could not find a valid token. Make sure you copied the full WebSocket URL.")
    );
    assert!(set_token_from_input(&jwt("{\"aud\":\"x\"}"), None)
        .err()
        .unwrap()
        .starts_with("token is not a substrate.office.com WebSocket token."));
    let file = set_token_from_input(&url, Some("M365_ACCESS_TOKEN=old")).unwrap();
    assert_eq!(read_token_from(Some(&file)), Some(good.clone()));
    assert_eq!(read_token_from(None), None);
    assert_eq!(write_token_to(None, &good), written);
}

#[test]
fn attempts_and_the_capture_at_the_start() {
    let again = |a, n| matches!(after_attempt(a), AfterAttempt::Again(m) if m == n);
    assert!(again(Attempt::NoTabs, 1));
    assert!(again(Attempt::NoPage, 1));
    assert!(again(Attempt::NoDebugger, 0));
    assert!(again(Attempt::NotConnected, 1));
    assert!(again(Attempt::Listened(None), 0));
    assert!(matches!(after_attempt(Attempt::NotSent), AfterAttempt::Done(None)));
    assert!(matches!(
        after_attempt(Attempt::Listened(Some("t".to_string()))),
        AfterAttempt::Done(Some(t)) if t == "t"
    ));

    let (state, phase, action) = capture_start(180);
    assert_eq!(phase, ServicePhase::WaitingForEdge);
    assert_eq!(action, CaptureAction::WaitForPage(30));
    assert_eq!(capture_start(5).2, CaptureAction::WaitForPage(5));
    let (state, phase, action) = capture_next(state, phase, false, 180);
    assert_eq!((phase, action), (ServicePhase::WaitingForEdge, CaptureAction::Refresh));
    assert_eq!(
        capture_next(state, phase, true, 180),
        (CaptureState::Finished, ServicePhase::Ready, CaptureAction::Stop)
    );
    let (state, phase, action) = capture_next(state, phase, false, 180);
    assert_eq!((phase, action), (ServicePhase::CapturingToken, CaptureAction::Listen(180)));
    assert_eq!(capture_next(state, phase, true, 180).1, ServicePhase::Ready);
    let (state, phase, action) = capture_next(state, phase, false, 180);
    assert_eq!((phase, action), (ServicePhase::CaptureFailed, CaptureAction::Stop));
    assert_eq!(capture_next(state, phase, true, 180), (state, phase, action));
}

#[test]
fn rounds_of_serving() {
    let mut config = AppConfig::default();
    assert_eq!(first_phase(true), ServicePhase::WaitingForEdge);
    assert_eq!(first_phase(false), ServicePhase::Ready);
    let plan = plan_round(&config, true);
    assert!(plan.launch_browser && plan.capture_token && plan.auto_refresh);
    assert_eq!(round_phase(plan, ServicePhase::CaptureFailed), ServicePhase::CaptureFailed);
    let plan = plan_round(&config, false);
    assert!(!plan.capture_token);
    assert_eq!(round_phase(plan, ServicePhase::CaptureFailed), ServicePhase::Ready);
    config.token.capture_on_start = false;
    config.edge.launch_on_start = false;
    config.token.auto_refresh = false;
    let plan = plan_round(&config, true);
    assert!(!plan.launch_browser && !plan.capture_token && !plan.auto_refresh);
    assert_eq!(after_action(UiAction::Quit), AfterAction::Stop);
    assert_eq!(after_action(UiAction::RefreshToken), AfterAction::Restart);
    assert_eq!(after_action(UiAction::LaunchEdge), AfterAction::LaunchBrowser);
    assert_eq!(phase_after_refresh(true), ServicePhase::Ready);
    assert_eq!(phase_after_refresh(false), ServicePhase::CaptureFailed);
}

#[test]
fn tokens_are_refreshed_in_time() {
    let mut config = AppConfig::default();
    let step = |config: &AppConfig, left: i64| auto_refresh_step(config, Some(&token(1000 + left)), 1000);
    assert_eq!(auto_refresh_step(&config, None, 0), RefreshStep::Wait(60));
    assert_eq!(auto_refresh_step(&config, Some("x"), 0), RefreshStep::Wait(60));
    assert_eq!(step(&config, 3600), RefreshStep::Wait(300));
    assert_eq!(step(&config, 310), RefreshStep::Wait(10));
    assert_eq!(step(&config, 300), RefreshStep::Refresh(60));
    assert_eq!(step(&config, -5), RefreshStep::Refresh(60));
    config.token.refresh_before_seconds = i64::MIN;
    assert_eq!(step(&config, 5), RefreshStep::Wait(300));
}

#[test]
fn a_captured_token_is_written() {
    assert_eq!(
        capture_token_interactive(Some("t"), Some("A=1")).unwrap(),
        "A=1\nM365_ACCESS_TOKEN=t\n"
    );
    assert_eq!(
        capture_token_interactive(None, None).err().as_deref(),
        Some("no Substrate WebSocket token captured before timeout")
    );
}

fn findings(cdp: CdpAnswer) -> Findings {
    Findings {
        profile_dir: "/p".to_string(),
        browser: "/b".to_string(),
        browser_usable: true,
        server_port_free: true,
        cdp_port_free: true,
        token: Some(token(1500)),
        now: 1000,
        cdp,
    }
}

#[test]
fn a_clean_bill_of_health() {
    let tab = parse_json("{\"type\":\"page\",\"url\":\"https://m365.cloud.microsoft/chat\"}").unwrap();
    let report = run_doctor(&AppConfig::default(), &findings(CdpAnswer::Tabs(vec![tab])));
    assert!(report.all_ok());
    assert_eq!(
        report.print(),
        "m365-copilot-proxy doctor\n\n  [ok] Configuration — listen 127.0.0.1:8000 · env .env · profile /p\n  [ok] Chromium browser — found at /b\n  [ok] HTTP server port — 127.0.0.1:8000 is available\n  [ok] Browser CDP port — 127.0.0.1:9222 is available\n  [ok] Substrate token — valid · 500s remaining\n  [ok] Browser CDP — CDP reachable · M365 Copilot tab open\n\nAll checks passed. Run: copilot-openai-proxy serve\n"
    );
}

#[test]
fn checks_that_fail() {
    let mut f = findings(CdpAnswer::Unreachable);
    f.browser_usable = false;
    f.server_port_free = false;
    f.token = None;
    let report = run_doctor(&AppConfig::default(), &f);
    assert!(!report.all_ok());
    let details: Vec<&str> = report.checks.iter().map(|c| c.detail.as_str()).collect();
    assert_eq!(
        details[1],
        "not found at /b — install Edge/Chrome/Brave or set edge.executable in config"
    );
    assert_eq!(details[2], "127.0.0.1:8000 is in use — free the port or change config");
    assert_eq!(details[4], "missing or expired — sign in via browser or run set-token");
    assert_eq!(
        details[5],
        "not reachable on :9222 — run serve (launches browser) or launch-edge"
    );
    assert!(report.print().ends_with("Fix the failed checks above, then run: copilot-openai-proxy serve\n"));
    let detail = |answer| {
        let report = run_doctor(&AppConfig::default(), &findings(answer));
        (report.checks[5].ok, report.checks[5].detail.clone())
    };
    assert_eq!(
        detail(CdpAnswer::NoClient("e".to_string())),
        (false, "HTTP client error: e".to_string())
    );
    assert_eq!(
        detail(CdpAnswer::Refused("404 Not Found".to_string())),
        (false, "CDP returned HTTP 404 Not Found".to_string())
    );
    assert_eq!(detail(CdpAnswer::Unreadable), (true, "CDP reachable".to_string()));
    assert_eq!(
        detail(CdpAnswer::Tabs(Vec::new())),
        (
            true,
            "CDP reachable · open https://m365.cloud.microsoft/chat in the debug browser".to_string()
        )
    );
}

#[test]
fn bind_errors() {
    assert_eq!(
        format_bind_error("h", 1, true, "x"),
        "port h:1 is already in use — stop the other process or set M365_PORT"
    );
    assert_eq!(format_bind_error("h", 1, false, "denied"), "failed to bind h:1: denied");
}

#[test]
fn the_stand_in_keeps_its_calls() {
    let session = PersistentSession::with_ids("conv".to_string(), "sess".to_string());
    let mut fake = FakeCopilotClient::streaming(&["a", "b"]);
    assert_eq!(fake.reply, "ab");
    let items = fake.chat_stream("p", &["c".to_string()], Some(&session)).unwrap();
    assert_eq!(items.len(), 2);
    assert_eq!(fake.chat("q", &[], None).unwrap(), "ab");
    assert_eq!(
        fake.calls,
        vec![
            ("p".to_string(), vec!["c".to_string()], Some("conv".to_string())),
            ("q".to_string(), vec![], None),
        ]
    );
    let mut failing = FakeCopilotClient::failing_stream();
    assert_eq!(failing.chat_stream("p", &[], None).err().unwrap().0, "upstream broke");
    assert_eq!(failing.calls.len(), 1);
}
