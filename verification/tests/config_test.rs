use m365_copilot_proxy::bootstrap::{bootstrap, print_welcome, BootstrapReport};
use m365_copilot_proxy::config::{
    apply_cli_overrides, apply_env_overrides, discover_config_path, parse_bool, AppConfig,
    FileConfig, ServeOverrides, ServerConfig, Settings, UiConfig,
};
use m365_copilot_proxy::platform::Os;

fn env(pairs: &[(&str, &str)]) -> Vec<(String, String)> {
    pairs.iter().map(|(k, v)| (k.to_string(), v.to_string())).collect()
}

#[test]
fn all_defaults() {
    let c = AppConfig::default();
    assert_eq!(c.server.host, "127.0.0.1");
    assert_eq!(c.token.access_token, None);
    assert_eq!(c.token.env_file, ".env");
    assert!(c.token.auto_refresh && c.token.capture_on_start);
    assert_eq!(c.token.capture_timeout_seconds, 180);
    assert_eq!(c.token.refresh_before_seconds, 300);
    assert_eq!(c.token.refresh_retry_seconds, 60);
    assert_eq!(c.edge.cdp_port, 9222);
    assert!(c.edge.launch_on_start && c.edge.headless_when_authenticated);
    assert_eq!((c.edge.profile_dir, c.edge.executable), (None, None));
    assert_eq!((c.logging.level.as_str(), c.logging.format.as_str()), ("info", "pretty"));
    assert!(c.ui.tui && c.ui.tray);
    let s = Settings::default();
    assert_eq!((s.access_token.as_str(), s.time_zone.as_str()), ("", "Asia/Tokyo"));
    assert_eq!(s.model_alias, "m365-copilot");
}

#[test]
fn words_that_switch_on() {
    for on in ["1", "true", "YES", " On ", "TRUE\n"] {
        assert!(parse_bool(on), "{on}");
    }
    for off in ["0", "false", "", "y", "truee", "enabled", "\u{212a}"] {
        assert!(!parse_bool(off), "{off}");
    }
}

#[test]
fn every_variable_is_read() {
    let mut c = AppConfig::default();
    apply_env_overrides(
        &mut c,
        &env(&[
            ("M365_HOST", "h"),
            ("M365_PORT", "1"),
            ("M365_ACCESS_TOKEN", "t"),
            ("M365_ENV_FILE", "e"),
            ("M365_TIME_ZONE", "z"),
            ("M365_MODEL_ALIAS", "a"),
            ("M365_CDP_PORT", "2"),
            ("M365_AUTO_REFRESH", "no"),
            ("M365_CAPTURE_ON_START", "no"),
            ("M365_CAPTURE_TIMEOUT_SECONDS", "3"),
            ("M365_REFRESH_BEFORE_SECONDS", "-4"),
            ("M365_REFRESH_RETRY_SECONDS", "5"),
            ("M365_LAUNCH_EDGE", "no"),
            ("M365_BROWSER_EXECUTABLE", "b"),
            ("M365_EDGE_HEADLESS_WHEN_AUTHENTICATED", "no"),
            ("M365_EDGE_PROFILE_DIR", "p"),
            ("M365_LOG_LEVEL", "l"),
            ("M365_LOG_FORMAT", "f"),
            ("M365_TUI", "no"),
            ("M365_TRAY", "no"),
        ]),
    );
    assert_eq!((c.server.host.as_str(), c.server.port), ("h", 1));
    assert_eq!(c.token.access_token.as_deref(), Some("t"));
    assert_eq!((c.token.env_file.as_str(), c.token.time_zone.as_str()), ("e", "z"));
    assert_eq!((c.token.model_alias.as_str(), c.edge.cdp_port), ("a", 2));
    assert!(!c.token.auto_refresh && !c.token.capture_on_start && !c.edge.launch_on_start);
    assert_eq!(c.token.capture_timeout_seconds, 3);
    assert_eq!(c.token.refresh_before_seconds, -4);
    assert_eq!(c.token.refresh_retry_seconds, 5);
    assert_eq!(c.edge.executable.as_deref(), Some("b"));
    assert_eq!(c.edge.profile_dir.as_deref(), Some("p"));
    assert!(!c.edge.headless_when_authenticated);
    assert_eq!((c.logging.level.as_str(), c.logging.format.as_str()), ("l", "f"));
    assert!(!c.ui.tui && !c.ui.tray);
}

#[test]
fn unreadable_numbers_change_nothing() {
    let mut c = AppConfig::default();
    apply_env_overrides(
        &mut c,
        &env(&[
            ("M365_PORT", "65536"),
            ("M365_CDP_PORT", "x"),
            ("M365_CAPTURE_TIMEOUT_SECONDS", "-1"),
            ("M365_REFRESH_BEFORE_SECONDS", "soon"),
            ("M365_REFRESH_RETRY_SECONDS", ""),
        ]),
    );
    assert_eq!((c.server.port, c.edge.cdp_port), (8000, 9222));
    assert_eq!(c.token.capture_timeout_seconds, 180);
    assert_eq!(c.token.refresh_before_seconds, 300);
    assert_eq!(c.token.refresh_retry_seconds, 60);
}

#[test]
fn flags_beat_variables_beat_the_file_beats_defaults() {
    let mut file = AppConfig::default();
    file.server.host = "file".to_string();
    file.server.port = 1;
    file.logging.level = "file".to_string();
    let vars = env(&[("M365_PORT", "2"), ("M365_LOG_LEVEL", "env")]);
    let overrides = ServeOverrides { log_level: Some("flag".to_string()), ..Default::default() };
    let c = AppConfig::load(FileConfig::Whole(file), &vars, &overrides);
    assert_eq!(c.server.host, "file");
    assert_eq!(c.server.port, 2);
    assert_eq!(c.logging.level, "flag");
    assert_eq!(c.edge.cdp_port, 9222);
    let c = AppConfig::load(FileConfig::Absent, &[], &ServeOverrides::default());
    assert_eq!(c.listen_addr(), "127.0.0.1:8000");
}

#[test]
fn every_flag_is_applied() {
    let mut c = AppConfig::default();
    apply_cli_overrides(
        &mut c,
        &ServeOverrides {
            config_path: None,
            host: Some("h".to_string()),
            port: Some(1),
            cdp_port: Some(2),
            no_auto_refresh: true,
            no_launch_edge: true,
            no_capture_on_start: true,
            capture_timeout_seconds: Some(3),
            refresh_before_seconds: Some(4),
            refresh_retry_seconds: Some(5),
            no_tui: true,
            no_tray: true,
            log_level: Some("debug".to_string()),
            skip_onboarding: true,
        },
    );
    assert_eq!(c.listen_addr(), "h:1");
    assert_eq!(c.edge.cdp_port, 2);
    assert!(!c.token.auto_refresh && !c.edge.launch_on_start && !c.token.capture_on_start);
    assert_eq!(
        (
            c.token.capture_timeout_seconds,
            c.token.refresh_before_seconds,
            c.token.refresh_retry_seconds
        ),
        (3, 4, 5)
    );
    assert!(!c.ui.tui && !c.ui.tray);
    assert_eq!(c.logging.level, "debug");
}

#[test]
fn tables_that_can_be_read_are_taken() {
    let file = FileConfig::Tables {
        server: Some(ServerConfig { host: "s".to_string(), port: 3 }),
        token: None,
        edge: None,
        logging: None,
        ui: Some(UiConfig { tui: false, tray: true }),
    };
    let c = AppConfig::load(file, &[], &ServeOverrides::default());
    assert_eq!(c.listen_addr(), "s:3");
    assert!(!c.ui.tui && c.ui.tray);
    assert_eq!(c.edge.cdp_port, 9222);
}

#[test]
fn settings_take_the_configured_token_first() {
    let mut c = AppConfig::default();
    assert_eq!(c.settings(Some("M365_ACCESS_TOKEN=f")).access_token, "f");
    assert_eq!(c.settings(None).access_token, "");
    c.token.access_token = Some(String::new());
    assert_eq!(c.settings(Some("M365_ACCESS_TOKEN=f")).access_token, "f");
    c.token.access_token = Some("c".to_string());
    assert_eq!(c.settings(Some("M365_ACCESS_TOKEN=f")).access_token, "c");
}

#[test]
fn profile_directories() {
    let mut c = AppConfig::default();
    assert_eq!(
        c.edge_profile_dir(Some("/home/u"), Os::Linux),
        "/home/u/.m365-copilot-proxy/edge-profile"
    );
    assert_eq!(c.edge_profile_dir(None, Os::Linux), "./.m365-copilot-proxy/edge-profile");
    assert_eq!(
        c.edge_profile_dir(Some("C:\\Users\\u"), Os::Windows),
        "C:\\Users\\u\\.m365-copilot-proxy\\edge-profile"
    );
    c.edge.profile_dir = Some("/p".to_string());
    assert_eq!(c.edge_profile_dir(Some("/home/u"), Os::Linux), "/p");
}

#[test]
fn the_first_place_of_the_file_wins() {
    let find = |flag, var, local, dir| discover_config_path(flag, var, local, dir, Os::Linux);
    assert_eq!(find(Some("f"), Some("v"), true, Some("/c")).as_deref(), Some("f"));
    assert_eq!(find(None, Some("v"), true, Some("/c")).as_deref(), Some("v"));
    assert_eq!(find(None, None, true, Some("/c")).as_deref(), Some("config.toml"));
    assert_eq!(
        find(None, None, false, Some("/c")).as_deref(),
        Some("/c/m365-copilot-proxy/config.toml")
    );
    assert_eq!(find(None, None, false, None), None);
}

#[test]
fn the_first_run_makes_what_is_missing() {
    let o = ServeOverrides::default();
    let report = bootstrap(&o, None, false, Some("/c"), false, false, Os::Linux);
    assert_eq!(report.config_path.as_deref(), Some("/c/m365-copilot-proxy/config.toml"));
    assert!(report.config_created && report.env_example_created);
    let report = bootstrap(&o, None, false, Some("/c"), true, false, Os::Linux);
    assert!(!report.config_created && !report.env_example_created);
    let report = bootstrap(&o, Some("v"), true, Some("/c"), false, false, Os::Linux);
    assert_eq!(report.config_path.as_deref(), Some("v"));
    assert!(!report.config_created);
    let report = bootstrap(&o, None, false, None, false, true, Os::Linux);
    assert_eq!(report.config_path, None);
    assert!(!report.config_created && !report.env_example_created);
    let flag = ServeOverrides { config_path: Some("f".to_string()), ..Default::default() };
    let report = bootstrap(&flag, Some("v"), true, None, false, false, Os::Linux);
    assert_eq!(report.config_path.as_deref(), Some("f"));
}

#[test]
fn the_welcome_says_what_was_made_and_what_is_missing() {
    let c = AppConfig::default();
    let made = BootstrapReport {
        config_path: Some("/c/x.toml".to_string()),
        config_created: true,
        env_example_created: false,
    };
    assert_eq!(
        print_welcome(&made, &c, false),
        "\nFirst run: wrote config to /c/x.toml\nEdit it or use M365_* env vars. See README.\n\n"
    );
    let none = BootstrapReport::default();
    assert_eq!(print_welcome(&none, &c, false), "");
    assert_eq!(
        print_welcome(&none, &c, true),
        "No valid token yet. The proxy will:\n  1. Open Microsoft Edge with M365 Copilot\n  2. Wait for you to sign in\n  3. Capture the token when you click the message box and type one character\n\nManual fallback: copilot-openai-proxy set-token\n\n"
    );
}
