//! Settings: their defaults, and how the configuration file, the environment and the flags of
//! the command line override them in turn.
use vstd::prelude::*;
use vstd::string::*;

use crate::platform::{self, join_path, Os};
use crate::text::{self, equals_ignoring_case, parse_signed, parse_unsigned, same_text, trim_text};
use crate::token_store::{self, read_env_token};

verus! {

// ---------------------------------------------------------------------------------------------
// The settings
// ---------------------------------------------------------------------------------------------

/// What the chat client needs.
#[derive(Debug, Clone)]
pub struct Settings {
    pub access_token: String,
    pub time_zone: String,
    pub model_alias: String,
}

/// All settings.
#[derive(Debug, Clone)]
pub struct AppConfig {
    pub server: ServerConfig,
    pub token: TokenConfig,
    pub edge: EdgeConfig,
    pub logging: LoggingConfig,
    pub ui: UiConfig,
}

/// Where the server listens.
#[derive(Debug, Clone)]
pub struct ServerConfig {
    pub host: String,
    pub port: u16,
}

/// The access token, and how it is renewed.
#[derive(Debug, Clone)]
pub struct TokenConfig {
    pub access_token: Option<String>,
    pub env_file: String,
    pub time_zone: String,
    pub model_alias: String,
    pub auto_refresh: bool,
    pub capture_on_start: bool,
    pub capture_timeout_seconds: u64,
    pub refresh_before_seconds: i64,
    pub refresh_retry_seconds: u64,
}

/// The browser.
#[derive(Debug, Clone)]
pub struct EdgeConfig {
    pub cdp_port: u16,
    pub launch_on_start: bool,
    pub profile_dir: Option<String>,
    pub executable: Option<String>,
    pub headless_when_authenticated: bool,
}

/// What is logged, and how it is written.
#[derive(Debug, Clone)]
pub struct LoggingConfig {
    pub level: String,
    pub format: String,
}

/// The user interfaces.
#[derive(Debug, Clone, Copy)]
pub struct UiConfig {
    pub tui: bool,
    pub tray: bool,
}

/// Flags of the command line; they override the settings where they are given.
#[derive(Debug, Clone)]
pub struct ServeOverrides {
    pub config_path: Option<String>,
    pub host: Option<String>,
    pub port: Option<u16>,
    pub cdp_port: Option<u16>,
    pub no_auto_refresh: bool,
    pub no_launch_edge: bool,
    pub no_capture_on_start: bool,
    pub capture_timeout_seconds: Option<u64>,
    pub refresh_before_seconds: Option<i64>,
    pub refresh_retry_seconds: Option<u64>,
    pub no_tui: bool,
    pub no_tray: bool,
    pub log_level: Option<String>,
    pub skip_onboarding: bool,
}

/// What the chat client needs.
pub struct SettingsView {
    pub access_token: Seq<char>,
    pub time_zone: Seq<char>,
    pub model_alias: Seq<char>,
}

/// Where the server listens.
pub struct ServerView {
    pub host: Seq<char>,
    pub port: u16,
}

/// The access token, and how it is renewed.
pub struct TokenView {
    pub access_token: Option<Seq<char>>,
    pub env_file: Seq<char>,
    pub time_zone: Seq<char>,
    pub model_alias: Seq<char>,
    pub auto_refresh: bool,
    pub capture_on_start: bool,
    pub capture_timeout_seconds: u64,
    pub refresh_before_seconds: i64,
    pub refresh_retry_seconds: u64,
}

/// The browser.
pub struct EdgeView {
    pub cdp_port: u16,
    pub launch_on_start: bool,
    pub profile_dir: Option<Seq<char>>,
    pub executable: Option<Seq<char>>,
    pub headless_when_authenticated: bool,
}

/// What is logged, and how it is written.
pub struct LoggingView {
    pub level: Seq<char>,
    pub format: Seq<char>,
}

/// All settings.
pub struct ConfigView {
    pub server: ServerView,
    pub token: TokenView,
    pub edge: EdgeView,
    pub logging: LoggingView,
    pub ui: UiConfig,
}

impl View for Settings {
    type V = SettingsView;

    open spec fn view(&self) -> SettingsView {
        SettingsView {
            access_token: self.access_token@,
            time_zone: self.time_zone@,
            model_alias: self.model_alias@,
        }
    }
}

impl View for ServerConfig {
    type V = ServerView;

    open spec fn view(&self) -> ServerView {
        ServerView { host: self.host@, port: self.port }
    }
}

impl View for TokenConfig {
    type V = TokenView;

    open spec fn view(&self) -> TokenView {
        TokenView {
            access_token: text::string_view(self.access_token),
            env_file: self.env_file@,
            time_zone: self.time_zone@,
            model_alias: self.model_alias@,
            auto_refresh: self.auto_refresh,
            capture_on_start: self.capture_on_start,
            capture_timeout_seconds: self.capture_timeout_seconds,
            refresh_before_seconds: self.refresh_before_seconds,
            refresh_retry_seconds: self.refresh_retry_seconds,
        }
    }
}

impl View for EdgeConfig {
    type V = EdgeView;

    open spec fn view(&self) -> EdgeView {
        EdgeView {
            cdp_port: self.cdp_port,
            launch_on_start: self.launch_on_start,
            profile_dir: text::string_view(self.profile_dir),
            executable: text::string_view(self.executable),
            headless_when_authenticated: self.headless_when_authenticated,
        }
    }
}

impl View for LoggingConfig {
    type V = LoggingView;

    open spec fn view(&self) -> LoggingView {
        LoggingView { level: self.level@, format: self.format@ }
    }
}

impl View for AppConfig {
    type V = ConfigView;

    open spec fn view(&self) -> ConfigView {
        ConfigView {
            server: self.server@,
            token: self.token@,
            edge: self.edge@,
            logging: self.logging@,
            ui: self.ui,
        }
    }
}

/// The settings of the chat client where nothing else is said.
pub open spec fn default_settings() -> SettingsView {
    SettingsView {
        access_token: Seq::empty(),
        time_zone: "Asia/Tokyo"@,
        model_alias: "m365-copilot"@,
    }
}

/// The settings where nothing else is said.
pub open spec fn default_config() -> ConfigView {
    ConfigView {
        server: ServerView { host: "127.0.0.1"@, port: 8000 },
        token: TokenView {
            access_token: None,
            env_file: ".env"@,
            time_zone: "Asia/Tokyo"@,
            model_alias: "m365-copilot"@,
            auto_refresh: true,
            capture_on_start: true,
            capture_timeout_seconds: 180,
            refresh_before_seconds: 300,
            refresh_retry_seconds: 60,
        },
        edge: EdgeView {
            cdp_port: 9222,
            launch_on_start: true,
            profile_dir: None,
            executable: None,
            headless_when_authenticated: true,
        },
        logging: LoggingView { level: "info"@, format: "pretty"@ },
        ui: UiConfig { tui: true, tray: true },
    }
}

impl Default for Settings {
    fn default() -> (settings: Self)
        ensures
            settings@ == default_settings(),
    {
        Settings {
            access_token: String::new(),
            time_zone: "Asia/Tokyo".to_owned(),
            model_alias: "m365-copilot".to_owned(),
        }
    }
}

impl Default for ServerConfig {
    fn default() -> (server: Self)
        ensures
            server@ == default_config().server,
    {
        ServerConfig { host: "127.0.0.1".to_owned(), port: 8000 }
    }
}

impl Default for TokenConfig {
    fn default() -> (token: Self)
        ensures
            token@ == default_config().token,
    {
        TokenConfig {
            access_token: None,
            env_file: ".env".to_owned(),
            time_zone: "Asia/Tokyo".to_owned(),
            model_alias: "m365-copilot".to_owned(),
            auto_refresh: true,
            capture_on_start: true,
            capture_timeout_seconds: 180,
            refresh_before_seconds: 300,
            refresh_retry_seconds: 60,
        }
    }
}

impl Default for EdgeConfig {
    fn default() -> (edge: Self)
        ensures
            edge@ == default_config().edge,
    {
        EdgeConfig {
            cdp_port: 9222,
            launch_on_start: true,
            profile_dir: None,
            executable: None,
            headless_when_authenticated: true,
        }
    }
}

impl Default for LoggingConfig {
    fn default() -> (logging: Self)
        ensures
            logging@ == default_config().logging,
    {
        LoggingConfig { level: "info".to_owned(), format: "pretty".to_owned() }
    }
}

impl Default for UiConfig {
    fn default() -> (ui: Self)
        ensures
            ui == default_config().ui,
    {
        UiConfig { tui: true, tray: true }
    }
}

impl Default for AppConfig {
    fn default() -> (config: Self)
        ensures
            config@ == default_config(),
    {
        AppConfig {
            server: ServerConfig::default(),
            token: TokenConfig::default(),
            edge: EdgeConfig::default(),
            logging: LoggingConfig::default(),
            ui: UiConfig::default(),
        }
    }
}

/// No flag is given.
pub open spec fn no_overrides(o: ServeOverrides) -> bool {
    &&& o.config_path is None
    &&& o.host is None
    &&& o.port is None
    &&& o.cdp_port is None
    &&& !o.no_auto_refresh
    &&& !o.no_launch_edge
    &&& !o.no_capture_on_start
    &&& o.capture_timeout_seconds is None
    &&& o.refresh_before_seconds is None
    &&& o.refresh_retry_seconds is None
    &&& !o.no_tui
    &&& !o.no_tray
    &&& o.log_level is None
    &&& !o.skip_onboarding
}

impl Default for ServeOverrides {
    fn default() -> (overrides: Self)
        ensures
            no_overrides(overrides),
    {
        ServeOverrides {
            config_path: None,
            host: None,
            port: None,
            cdp_port: None,
            no_auto_refresh: false,
            no_launch_edge: false,
            no_capture_on_start: false,
            capture_timeout_seconds: None,
            refresh_before_seconds: None,
            refresh_retry_seconds: None,
            no_tui: false,
            no_tray: false,
            log_level: None,
            skip_onboarding: false,
        }
    }
}

// ---------------------------------------------------------------------------------------------
// The environment
// ---------------------------------------------------------------------------------------------

/// The names and values of variables.
pub open spec fn variable_views(env: Seq<(String, String)>) -> Seq<(Seq<char>, Seq<char>)> {
    Seq::new(env.len(), |i: int| (env[i].0@, env[i].1@))
}

/// The value of the first variable with the given name.
pub open spec fn variable(env: Seq<(Seq<char>, Seq<char>)>, name: Seq<char>) -> Option<Seq<char>>
    decreases env.len(),
{
    if env.len() == 0 {
        None
    } else if env[0].0 == name {
        Some(env[0].1)
    } else {
        variable(env.skip(1), name)
    }
}

/// A value that switches something on.
pub open spec fn truthy(value: Seq<char>) -> bool {
    let word = text::trimmed(value);
    ||| text::same_ignoring_case(word, "1"@)
    ||| text::same_ignoring_case(word, "true"@)
    ||| text::same_ignoring_case(word, "yes"@)
    ||| text::same_ignoring_case(word, "on"@)
}

/// The text of a variable, or what was set before.
pub open spec fn text_set(
    env: Seq<(Seq<char>, Seq<char>)>,
    name: Seq<char>,
    before: Seq<char>,
) -> Seq<char> {
    match variable(env, name) {
        Some(value) => value,
        None => before,
    }
}

/// The text of a variable, or what was set before, if anything was.
pub open spec fn optional_set(
    env: Seq<(Seq<char>, Seq<char>)>,
    name: Seq<char>,
    before: Option<Seq<char>>,
) -> Option<Seq<char>> {
    match variable(env, name) {
        Some(value) => Some(value),
        None => before,
    }
}

/// What a variable switches on or off, or what was set before.
pub open spec fn switch_set(
    env: Seq<(Seq<char>, Seq<char>)>,
    name: Seq<char>,
    before: bool,
) -> bool {
    match variable(env, name) {
        Some(value) => truthy(value),
        None => before,
    }
}

/// The number that a variable spells, where it lies from 0 to `max`, or what was set before.
pub open spec fn unsigned_set(
    env: Seq<(Seq<char>, Seq<char>)>,
    name: Seq<char>,
    max: int,
    before: int,
) -> int {
    match variable(env, name) {
        Some(value) => match text::within(text::unsigned_value(value), 0, max) {
            Some(n) => n,
            None => before,
        },
        None => before,
    }
}

/// The number that a variable spells, where an `i64` holds it, or what was set before.
pub open spec fn signed_set(
    env: Seq<(Seq<char>, Seq<char>)>,
    name: Seq<char>,
    before: int,
) -> int {
    match variable(env, name) {
        Some(value) => match text::within(
            text::signed_value(value),
            i64::MIN as int,
            i64::MAX as int,
        ) {
            Some(n) => n,
            None => before,
        },
        None => before,
    }
}

/// Settings with the environment's values in place of those set before.
pub open spec fn with_environment(
    c: ConfigView,
    env: Seq<(Seq<char>, Seq<char>)>,
) -> ConfigView {
    ConfigView {
        server: ServerView {
            host: text_set(env, "M365_HOST"@, c.server.host),
            port: unsigned_set(env, "M365_PORT"@, u16::MAX as int, c.server.port as int) as u16,
        },
        token: TokenView {
            access_token: optional_set(env, "M365_ACCESS_TOKEN"@, c.token.access_token),
            env_file: text_set(env, "M365_ENV_FILE"@, c.token.env_file),
            time_zone: text_set(env, "M365_TIME_ZONE"@, c.token.time_zone),
            model_alias: text_set(env, "M365_MODEL_ALIAS"@, c.token.model_alias),
            auto_refresh: switch_set(env, "M365_AUTO_REFRESH"@, c.token.auto_refresh),
            capture_on_start: switch_set(env, "M365_CAPTURE_ON_START"@, c.token.capture_on_start),
            capture_timeout_seconds: unsigned_set(
                env,
                "M365_CAPTURE_TIMEOUT_SECONDS"@,
                u64::MAX as int,
                c.token.capture_timeout_seconds as int,
            ) as u64,
            refresh_before_seconds: signed_set(
                env,
                "M365_REFRESH_BEFORE_SECONDS"@,
                c.token.refresh_before_seconds as int,
            ) as i64,
            refresh_retry_seconds: unsigned_set(
                env,
                "M365_REFRESH_RETRY_SECONDS"@,
                u64::MAX as int,
                c.token.refresh_retry_seconds as int,
            ) as u64,
        },
        edge: EdgeView {
            cdp_port: unsigned_set(
                env,
                "M365_CDP_PORT"@,
                u16::MAX as int,
                c.edge.cdp_port as int,
            ) as u16,
            launch_on_start: switch_set(env, "M365_LAUNCH_EDGE"@, c.edge.launch_on_start),
            profile_dir: optional_set(env, "M365_EDGE_PROFILE_DIR"@, c.edge.profile_dir),
            executable: optional_set(env, "M365_BROWSER_EXECUTABLE"@, c.edge.executable),
            headless_when_authenticated: switch_set(
                env,
                "M365_EDGE_HEADLESS_WHEN_AUTHENTICATED"@,
                c.edge.headless_when_authenticated,
            ),
        },
        logging: LoggingView {
            level: text_set(env, "M365_LOG_LEVEL"@, c.logging.level),
            format: text_set(env, "M365_LOG_FORMAT"@, c.logging.format),
        },
        ui: UiConfig {
            tui: switch_set(env, "M365_TUI"@, c.ui.tui),
            tray: switch_set(env, "M365_TRAY"@, c.ui.tray),
        },
    }
}

/// Whether a value switches something on.
pub fn parse_bool(value: &str) -> (on: bool)
    ensures
        on == truthy(value@),
{
    let word = trim_text(value);
    equals_ignoring_case(word.as_str(), "1") || equals_ignoring_case(word.as_str(), "true")
        || equals_ignoring_case(word.as_str(), "yes") || equals_ignoring_case(word.as_str(), "on")
}

/// The value of the first variable with the given name.
fn find_variable<'a>(env: &'a [(String, String)], name: &str) -> (value: Option<&'a str>)
    ensures
        text::text_view(value) == variable(variable_views(env@), name@),
{
    let ghost all = variable_views(env@);
    assert(all.skip(0) =~= all);
    for i in 0..env.len()
        invariant
            all == variable_views(env@),
            variable(all, name@) == variable(all.skip(i as int), name@),
    {
        assert(all.skip(i as int)[0] == (env@[i as int].0@, env@[i as int].1@));
        assert(all.skip(i as int).skip(1) =~= all.skip(i + 1));
        if same_text(env[i].0.as_str(), name) {
            return Some(env[i].1.as_str());
        }
    }
    None
}

/// Sets a text from a variable.
fn set_text(env: &[(String, String)], name: &str, place: &mut String)
    ensures
        final(place)@ == text_set(variable_views(env@), name@, old(place)@),
{
    if let Some(value) = find_variable(env, name) {
        *place = value.to_owned();
    }
}

/// Sets a text from a variable.
fn set_optional(env: &[(String, String)], name: &str, place: &mut Option<String>)
    ensures
        text::string_view(*final(place)) == optional_set(
            variable_views(env@),
            name@,
            text::string_view(*old(place)),
        ),
{
    if let Some(value) = find_variable(env, name) {
        *place = Some(value.to_owned());
    }
}

/// Switches something on or off by a variable.
fn set_switch(env: &[(String, String)], name: &str, place: &mut bool)
    ensures
        *final(place) == switch_set(variable_views(env@), name@, *old(place)),
{
    if let Some(value) = find_variable(env, name) {
        *place = parse_bool(value);
    }
}

/// Sets a port from a variable.
fn set_port(env: &[(String, String)], name: &str, place: &mut u16)
    ensures
        *final(place) == unsigned_set(
            variable_views(env@),
            name@,
            u16::MAX as int,
            *old(place) as int,
        ),
{
    if let Some(value) = find_variable(env, name) {
        if let Some(n) = parse_unsigned(value, 65535) {
            *place = n as u16;
        }
    }
}

/// Sets a number of seconds from a variable.
fn set_unsigned(env: &[(String, String)], name: &str, place: &mut u64)
    ensures
        *final(place) == unsigned_set(
            variable_views(env@),
            name@,
            u64::MAX as int,
            *old(place) as int,
        ),
{
    if let Some(value) = find_variable(env, name) {
        if let Some(n) = parse_unsigned(value, u64::MAX) {
            *place = n;
        }
    }
}

/// Sets a number of seconds, which may be negative, from a variable.
fn set_signed(env: &[(String, String)], name: &str, place: &mut i64)
    ensures
        *final(place) == signed_set(variable_views(env@), name@, *old(place) as int),
{
    if let Some(value) = find_variable(env, name) {
        if let Some(n) = parse_signed(value) {
            *place = n;
        }
    }
}

/// Overrides settings by the variables of the environment. A number that cannot be read leaves
/// its setting as it was.
pub fn apply_env_overrides(config: &mut AppConfig, env: &[(String, String)])
    ensures
        final(config)@ == with_environment(old(config)@, variable_views(env@)),
{
    set_text(env, "M365_HOST", &mut config.server.host);
    set_port(env, "M365_PORT", &mut config.server.port);
    set_optional(env, "M365_ACCESS_TOKEN", &mut config.token.access_token);
    set_text(env, "M365_ENV_FILE", &mut config.token.env_file);
    set_text(env, "M365_TIME_ZONE", &mut config.token.time_zone);
    set_text(env, "M365_MODEL_ALIAS", &mut config.token.model_alias);
    set_port(env, "M365_CDP_PORT", &mut config.edge.cdp_port);
    set_switch(env, "M365_AUTO_REFRESH", &mut config.token.auto_refresh);
    set_switch(env, "M365_CAPTURE_ON_START", &mut config.token.capture_on_start);
    set_unsigned(
        env,
        "M365_CAPTURE_TIMEOUT_SECONDS",
        &mut config.token.capture_timeout_seconds,
    );
    set_signed(env, "M365_REFRESH_BEFORE_SECONDS", &mut config.token.refresh_before_seconds);
    set_unsigned(env, "M365_REFRESH_RETRY_SECONDS", &mut config.token.refresh_retry_seconds);
    set_switch(env, "M365_LAUNCH_EDGE", &mut config.edge.launch_on_start);
    set_optional(env, "M365_BROWSER_EXECUTABLE", &mut config.edge.executable);
    set_switch(
        env,
        "M365_EDGE_HEADLESS_WHEN_AUTHENTICATED",
        &mut config.edge.headless_when_authenticated,
    );
    set_optional(env, "M365_EDGE_PROFILE_DIR", &mut config.edge.profile_dir);
    set_text(env, "M365_LOG_LEVEL", &mut config.logging.level);
    set_text(env, "M365_LOG_FORMAT", &mut config.logging.format);
    set_switch(env, "M365_TUI", &mut config.ui.tui);
    set_switch(env, "M365_TRAY", &mut config.ui.tray);
}

// ---------------------------------------------------------------------------------------------
// The command line
// ---------------------------------------------------------------------------------------------

/// A flag's text, or what was set before.
pub open spec fn flag_text(flag: Option<String>, before: Seq<char>) -> Seq<char> {
    match flag {
        Some(value) => value@,
        None => before,
    }
}

/// Settings with the values of the flags in place of those set before.
pub open spec fn with_flags(c: ConfigView, o: ServeOverrides) -> ConfigView {
    ConfigView {
        server: ServerView {
            host: flag_text(o.host, c.server.host),
            port: match o.port {
                Some(port) => port,
                None => c.server.port,
            },
        },
        token: TokenView {
            auto_refresh: c.token.auto_refresh && !o.no_auto_refresh,
            capture_on_start: c.token.capture_on_start && !o.no_capture_on_start,
            capture_timeout_seconds: match o.capture_timeout_seconds {
                Some(n) => n,
                None => c.token.capture_timeout_seconds,
            },
            refresh_before_seconds: match o.refresh_before_seconds {
                Some(n) => n,
                None => c.token.refresh_before_seconds,
            },
            refresh_retry_seconds: match o.refresh_retry_seconds {
                Some(n) => n,
                None => c.token.refresh_retry_seconds,
            },
            ..c.token
        },
        edge: EdgeView {
            cdp_port: match o.cdp_port {
                Some(port) => port,
                None => c.edge.cdp_port,
            },
            launch_on_start: c.edge.launch_on_start && !o.no_launch_edge,
            ..c.edge
        },
        logging: LoggingView { level: flag_text(o.log_level, c.logging.level), ..c.logging },
        ui: UiConfig { tui: c.ui.tui && !o.no_tui, tray: c.ui.tray && !o.no_tray },
    }
}

/// Sets a text by a flag that is given.
fn override_text(flag: &Option<String>, place: &mut String)
    ensures
        final(place)@ == flag_text(*flag, old(place)@),
{
    if let Some(value) = flag {
        *place = value.clone();
    }
}

/// Sets a port by a flag that is given.
fn override_port(flag: Option<u16>, place: &mut u16)
    ensures
        *final(place) == match flag {
            Some(value) => value,
            None => *old(place),
        },
{
    if let Some(value) = flag {
        *place = value;
    }
}

/// Sets a number of seconds by a flag that is given.
fn override_unsigned(flag: Option<u64>, place: &mut u64)
    ensures
        *final(place) == match flag {
            Some(value) => value,
            None => *old(place),
        },
{
    if let Some(value) = flag {
        *place = value;
    }
}

/// Sets a number of seconds, which may be negative, by a flag that is given.
fn override_signed(flag: Option<i64>, place: &mut i64)
    ensures
        *final(place) == match flag {
            Some(value) => value,
            None => *old(place),
        },
{
    if let Some(value) = flag {
        *place = value;
    }
}

/// Overrides settings by the flags that are given.
pub fn apply_cli_overrides(config: &mut AppConfig, overrides: &ServeOverrides)
    ensures
        final(config)@ == with_flags(old(config)@, *overrides),
{
    override_text(&overrides.host, &mut config.server.host);
    override_port(overrides.port, &mut config.server.port);
    override_port(overrides.cdp_port, &mut config.edge.cdp_port);
    config.token.auto_refresh = config.token.auto_refresh && !overrides.no_auto_refresh;
    config.edge.launch_on_start = config.edge.launch_on_start && !overrides.no_launch_edge;
    config.token.capture_on_start = config.token.capture_on_start
        && !overrides.no_capture_on_start;
    override_unsigned(
        overrides.capture_timeout_seconds,
        &mut config.token.capture_timeout_seconds,
    );
    override_signed(overrides.refresh_before_seconds, &mut config.token.refresh_before_seconds);
    override_unsigned(overrides.refresh_retry_seconds, &mut config.token.refresh_retry_seconds);
    config.ui.tui = config.ui.tui && !overrides.no_tui;
    config.ui.tray = config.ui.tray && !overrides.no_tray;
    override_text(&overrides.log_level, &mut config.logging.level);
}

// ---------------------------------------------------------------------------------------------
// The configuration file
// ---------------------------------------------------------------------------------------------

/// Where the configuration file is: where a flag says, else where the environment says, else in
/// the working directory if there is one, else below the user's configuration directory.
pub open spec fn config_path(
    flag: Option<Seq<char>>,
    env: Option<Seq<char>>,
    local_exists: bool,
    config_dir: Option<Seq<char>>,
    os: Os,
) -> Option<Seq<char>> {
    match (flag, env, config_dir) {
        (Some(path), _, _) => Some(path),
        (None, Some(path), _) => Some(path),
        (None, None, _) if local_exists => Some("config.toml"@),
        (None, None, Some(dir)) => Some(user_config(dir, os)),
        (None, None, None) => None,
    }
}

/// The configuration file below the user's configuration directory.
pub open spec fn user_config(config_dir: Seq<char>, os: Os) -> Seq<char> {
    platform::joined_path(
        os,
        platform::joined_path(os, config_dir, "m365-copilot-proxy"@),
        "config.toml"@,
    )
}

/// The configuration file below the user's configuration directory.
pub fn user_config_path(config_dir: &str, os: Os) -> (path: String)
    ensures
        path@ == user_config(config_dir@, os),
{
    let dir = join_path(os, config_dir, "m365-copilot-proxy");
    join_path(os, dir.as_str(), "config.toml")
}

/// Where the configuration file is, by the flag, the value of `M365_CONFIG`, whether
/// `config.toml` exists in the working directory, and the user's configuration directory.
pub fn discover_config_path(
    explicit: Option<&str>,
    env: Option<&str>,
    local_exists: bool,
    config_dir: Option<&str>,
    os: Os,
) -> (path: Option<String>)
    ensures
        text::string_view(path) == config_path(
            text::text_view(explicit),
            text::text_view(env),
            local_exists,
            text::text_view(config_dir),
            os,
        ),
{
    if let Some(path) = explicit {
        return Some(path.to_owned());
    }
    if let Some(path) = env {
        return Some(path.to_owned());
    }
    if local_exists {
        return Some("config.toml".to_owned());
    }
    match config_dir {
        Some(dir) => Some(user_config_path(dir, os)),
        None => None,
    }
}

/// What the configuration file held.
pub enum FileConfig {
    /// Nothing that could be read.
    Absent,
    /// All of it could be read; what it leaves out stands at its default.
    Whole(AppConfig),
    /// Only some of its tables could be read.
    Tables {
        server: Option<ServerConfig>,
        token: Option<TokenConfig>,
        edge: Option<EdgeConfig>,
        logging: Option<LoggingConfig>,
        ui: Option<UiConfig>,
    },
}

/// Settings with the tables that could be read in place of those set before.
pub open spec fn with_tables(
    c: ConfigView,
    server: Option<ServerConfig>,
    token: Option<TokenConfig>,
    edge: Option<EdgeConfig>,
    logging: Option<LoggingConfig>,
    ui: Option<UiConfig>,
) -> ConfigView {
    ConfigView {
        server: match server {
            Some(table) => table@,
            None => c.server,
        },
        token: match token {
            Some(table) => table@,
            None => c.token,
        },
        edge: match edge {
            Some(table) => table@,
            None => c.edge,
        },
        logging: match logging {
            Some(table) => table@,
            None => c.logging,
        },
        ui: match ui {
            Some(table) => table,
            None => c.ui,
        },
    }
}

/// The settings by the configuration file and the defaults.
pub open spec fn with_file(file: FileConfig) -> ConfigView {
    match file {
        FileConfig::Absent => default_config(),
        FileConfig::Whole(config) => config@,
        FileConfig::Tables { server, token, edge, logging, ui } => with_tables(
            default_config(),
            server,
            token,
            edge,
            logging,
            ui,
        ),
    }
}

/// Settings with the tables that could be read in place of those set before.
pub fn merge_partial_config(
    base: AppConfig,
    server: Option<ServerConfig>,
    token: Option<TokenConfig>,
    edge: Option<EdgeConfig>,
    logging: Option<LoggingConfig>,
    ui: Option<UiConfig>,
) -> (merged: AppConfig)
    ensures
        merged@ == with_tables(base@, server, token, edge, logging, ui),
{
    let mut merged = base;
    if let Some(table) = server {
        merged.server = table;
    }
    if let Some(table) = token {
        merged.token = table;
    }
    if let Some(table) = edge {
        merged.edge = table;
    }
    if let Some(table) = logging {
        merged.logging = table;
    }
    if let Some(table) = ui {
        merged.ui = table;
    }
    merged
}

/// The settings: the defaults, overridden by the file, the environment and the flags in turn.
pub open spec fn loaded(
    file: FileConfig,
    env: Seq<(Seq<char>, Seq<char>)>,
    o: ServeOverrides,
) -> ConfigView {
    with_flags(with_environment(with_file(file), env), o)
}

/// What the chat client needs; the token is the configured one, if it is not empty, or else the
/// one that the environment file assigns.
pub open spec fn settings_of(c: ConfigView, env_file: Option<Seq<char>>) -> SettingsView {
    SettingsView {
        access_token: match c.token.access_token {
            Some(token) if token.len() > 0 => token,
            _ => match env_file {
                Some(file) => match token_store::env_token(file) {
                    Some(token) => token,
                    None => Seq::empty(),
                },
                None => Seq::empty(),
            },
        },
        time_zone: c.token.time_zone,
        model_alias: c.token.model_alias,
    }
}

/// Where the server listens, as a socket address.
pub open spec fn address_of(c: ConfigView) -> Seq<char> {
    c.server.host + ":"@ + text::decimal(c.server.port as int)
}

/// The browser's profile below a home directory.
pub open spec fn profile_below(home: Option<Seq<char>>, os: Os) -> Seq<char> {
    let base = match home {
        Some(home) => home,
        None => "."@,
    };
    platform::joined_path(
        os,
        platform::joined_path(os, base, ".m365-copilot-proxy"@),
        "edge-profile"@,
    )
}

/// The browser's profile.
pub open spec fn profile_of(c: ConfigView, home: Option<Seq<char>>, os: Os) -> Seq<char> {
    match c.edge.profile_dir {
        Some(dir) => dir,
        None => profile_below(home, os),
    }
}

/// The browser's profile below a home directory.
pub fn default_profile_dir(home: Option<&str>, os: Os) -> (dir: String)
    ensures
        dir@ == profile_below(text::text_view(home), os),
{
    let base = match home {
        Some(home) => home,
        None => ".",
    };
    let own = join_path(os, base, ".m365-copilot-proxy");
    join_path(os, own.as_str(), "edge-profile")
}

impl AppConfig {
    /// The settings, by what the configuration file held, the variables of the environment and
    /// the flags.
    pub fn load(file: FileConfig, env: &[(String, String)], overrides: &ServeOverrides) -> (config:
        Self)
        ensures
            config@ == loaded(file, variable_views(env@), *overrides),
    {
        let mut config = match file {
            FileConfig::Absent => AppConfig::default(),
            FileConfig::Whole(config) => config,
            FileConfig::Tables { server, token, edge, logging, ui } => merge_partial_config(
                AppConfig::default(),
                server,
                token,
                edge,
                logging,
                ui,
            ),
        };
        apply_env_overrides(&mut config, env);
        apply_cli_overrides(&mut config, overrides);
        config
    }

    /// What the chat client needs, by the text of the environment file.
    pub fn settings(&self, env_file: Option<&str>) -> (settings: Settings)
        ensures
            settings@ == settings_of(self@, text::text_view(env_file)),
    {
        let configured = match &self.token.access_token {
            Some(token) => token.clone(),
            None => String::new(),
        };
        let access_token = if configured.as_str().unicode_len() > 0 {
            configured
        } else {
            let assigned = match env_file {
                Some(file) => read_env_token(file),
                None => None,
            };
            match assigned {
                Some(token) => token,
                None => String::new(),
            }
        };
        Settings {
            access_token,
            time_zone: self.token.time_zone.clone(),
            model_alias: self.token.model_alias.clone(),
        }
    }

    /// Where the server listens, as a socket address.
    pub fn listen_addr(&self) -> (addr: String)
        ensures
            addr@ == address_of(self@),
    {
        let mut addr = self.server.host.clone();
        addr.append(":");
        addr.append(text::unsigned_text(self.server.port as u64).as_str());
        addr
    }

    /// The browser's profile, by the user's home directory.
    pub fn edge_profile_dir(&self, home: Option<&str>, os: Os) -> (dir: String)
        ensures
            dir@ == profile_of(self@, text::text_view(home), os),
    {
        match &self.edge.profile_dir {
            Some(dir) => dir.clone(),
            None => default_profile_dir(home, os),
        }
    }
}

// ---------------------------------------------------------------------------------------------
// Laws
// ---------------------------------------------------------------------------------------------

/// A flag that is given decides, whatever the environment and the file say.
pub proof fn law_flags_come_first(
    file: FileConfig,
    env: Seq<(Seq<char>, Seq<char>)>,
    o: ServeOverrides,
)
    ensures
        o.host matches Some(host) ==> loaded(file, env, o).server.host == host@,
        o.port matches Some(port) ==> loaded(file, env, o).server.port == port,
        o.cdp_port matches Some(port) ==> loaded(file, env, o).edge.cdp_port == port,
        o.no_auto_refresh ==> !loaded(file, env, o).token.auto_refresh,
        o.no_launch_edge ==> !loaded(file, env, o).edge.launch_on_start,
        o.no_capture_on_start ==> !loaded(file, env, o).token.capture_on_start,
        o.capture_timeout_seconds matches Some(n) ==> loaded(
            file,
            env,
            o,
        ).token.capture_timeout_seconds == n,
        o.refresh_before_seconds matches Some(n) ==> loaded(
            file,
            env,
            o,
        ).token.refresh_before_seconds == n,
        o.refresh_retry_seconds matches Some(n) ==> loaded(
            file,
            env,
            o,
        ).token.refresh_retry_seconds == n,
        o.no_tui ==> !loaded(file, env, o).ui.tui,
        o.no_tray ==> !loaded(file, env, o).ui.tray,
        o.log_level matches Some(level) ==> loaded(file, env, o).logging.level == level@,
{
}

/// The number that a value spells, where it lies from `low` to `high`.
pub open spec fn spelled(value: Option<Seq<char>>, low: int, high: int) -> Option<int> {
    match value {
        Some(v) => text::within(
            if low < 0 {
                text::signed_value(v)
            } else {
                text::unsigned_value(v)
            },
            low,
            high,
        ),
        None => None,
    }
}

/// A variable decides where no flag does, whatever the file says; one that has to spell a number
/// decides where it spells one.
pub proof fn law_environment_comes_second(
    file: FileConfig,
    env: Seq<(Seq<char>, Seq<char>)>,
    o: ServeOverrides,
)
    ensures
        o.host is None ==> (variable(env, "M365_HOST"@) matches Some(v) ==> loaded(file, env, o).server.host == v),
        o.port is None ==> (spelled(variable(env, "M365_PORT"@), 0, u16::MAX as int) matches Some(n) ==> loaded(file, env, o).server.port == n),
        variable(env, "M365_ACCESS_TOKEN"@) matches Some(v) ==> loaded(file, env, o).token.access_token == Some(v),
        variable(env, "M365_ENV_FILE"@) matches Some(v) ==> loaded(file, env, o).token.env_file == v,
        variable(env, "M365_TIME_ZONE"@) matches Some(v) ==> loaded(file, env, o).token.time_zone == v,
        variable(env, "M365_MODEL_ALIAS"@) matches Some(v) ==> loaded(file, env, o).token.model_alias == v,
        !o.no_auto_refresh ==> (variable(env, "M365_AUTO_REFRESH"@) matches Some(v) ==> loaded(file, env, o).token.auto_refresh == truthy(v)),
        !o.no_capture_on_start ==> (variable(env, "M365_CAPTURE_ON_START"@) matches Some(v) ==> loaded(file, env, o).token.capture_on_start == truthy(v)),
        o.capture_timeout_seconds is None ==> (spelled(variable(env, "M365_CAPTURE_TIMEOUT_SECONDS"@), 0, u64::MAX as int) matches Some(n) ==> loaded(file, env, o).token.capture_timeout_seconds == n),
        o.refresh_before_seconds is None ==> (spelled(variable(env, "M365_REFRESH_BEFORE_SECONDS"@), i64::MIN as int, i64::MAX as int) matches Some(n) ==> loaded(file, env, o).token.refresh_before_seconds == n),
        o.refresh_retry_seconds is None ==> (spelled(variable(env, "M365_REFRESH_RETRY_SECONDS"@), 0, u64::MAX as int) matches Some(n) ==> loaded(file, env, o).token.refresh_retry_seconds == n),
        o.cdp_port is None ==> (spelled(variable(env, "M365_CDP_PORT"@), 0, u16::MAX as int) matches Some(n) ==> loaded(file, env, o).edge.cdp_port == n),
        !o.no_launch_edge ==> (variable(env, "M365_LAUNCH_EDGE"@) matches Some(v) ==> loaded(file, env, o).edge.launch_on_start == truthy(v)),
        variable(env, "M365_EDGE_PROFILE_DIR"@) matches Some(v) ==> loaded(file, env, o).edge.profile_dir == Some(v),
        variable(env, "M365_BROWSER_EXECUTABLE"@) matches Some(v) ==> loaded(file, env, o).edge.executable == Some(v),
        variable(env, "M365_EDGE_HEADLESS_WHEN_AUTHENTICATED"@) matches Some(v) ==> loaded(file, env, o).edge.headless_when_authenticated == truthy(v),
        o.log_level is None ==> (variable(env, "M365_LOG_LEVEL"@) matches Some(v) ==> loaded(file, env, o).logging.level == v),
        variable(env, "M365_LOG_FORMAT"@) matches Some(v) ==> loaded(file, env, o).logging.format == v,
        !o.no_tui ==> (variable(env, "M365_TUI"@) matches Some(v) ==> loaded(file, env, o).ui.tui == truthy(v)),
        !o.no_tray ==> (variable(env, "M365_TRAY"@) matches Some(v) ==> loaded(file, env, o).ui.tray == truthy(v)),
{
}

/// Where neither a flag nor a variable decides, the file does; without a file, the defaults do.
pub proof fn law_file_comes_third(
    file: FileConfig,
    env: Seq<(Seq<char>, Seq<char>)>,
    o: ServeOverrides,
)
    ensures
        o.host is None && variable(env, "M365_HOST"@) is None ==> loaded(file, env, o).server.host == with_file(file).server.host,
        o.port is None && spelled(variable(env, "M365_PORT"@), 0, u16::MAX as int) is None ==> loaded(file, env, o).server.port == with_file(file).server.port,
        variable(env, "M365_ACCESS_TOKEN"@) is None ==> loaded(file, env, o).token.access_token == with_file(file).token.access_token,
        variable(env, "M365_ENV_FILE"@) is None ==> loaded(file, env, o).token.env_file == with_file(file).token.env_file,
        variable(env, "M365_TIME_ZONE"@) is None ==> loaded(file, env, o).token.time_zone == with_file(file).token.time_zone,
        variable(env, "M365_MODEL_ALIAS"@) is None ==> loaded(file, env, o).token.model_alias == with_file(file).token.model_alias,
        !o.no_auto_refresh && variable(env, "M365_AUTO_REFRESH"@) is None ==> loaded(file, env, o).token.auto_refresh == with_file(file).token.auto_refresh,
        !o.no_capture_on_start && variable(env, "M365_CAPTURE_ON_START"@) is None ==> loaded(file, env, o).token.capture_on_start == with_file(file).token.capture_on_start,
        o.capture_timeout_seconds is None && spelled(variable(env, "M365_CAPTURE_TIMEOUT_SECONDS"@), 0, u64::MAX as int) is None ==> loaded(file, env, o).token.capture_timeout_seconds == with_file(file).token.capture_timeout_seconds,
        o.refresh_before_seconds is None && spelled(variable(env, "M365_REFRESH_BEFORE_SECONDS"@), i64::MIN as int, i64::MAX as int) is None ==> loaded(file, env, o).token.refresh_before_seconds == with_file(file).token.refresh_before_seconds,
        o.refresh_retry_seconds is None && spelled(variable(env, "M365_REFRESH_RETRY_SECONDS"@), 0, u64::MAX as int) is None ==> loaded(file, env, o).token.refresh_retry_seconds == with_file(file).token.refresh_retry_seconds,
        o.cdp_port is None && spelled(variable(env, "M365_CDP_PORT"@), 0, u16::MAX as int) is None ==> loaded(file, env, o).edge.cdp_port == with_file(file).edge.cdp_port,
        !o.no_launch_edge && variable(env, "M365_LAUNCH_EDGE"@) is None ==> loaded(file, env, o).edge.launch_on_start == with_file(file).edge.launch_on_start,
        variable(env, "M365_EDGE_PROFILE_DIR"@) is None ==> loaded(file, env, o).edge.profile_dir == with_file(file).edge.profile_dir,
        variable(env, "M365_BROWSER_EXECUTABLE"@) is None ==> loaded(file, env, o).edge.executable == with_file(file).edge.executable,
        variable(env, "M365_EDGE_HEADLESS_WHEN_AUTHENTICATED"@) is None ==> loaded(file, env, o).edge.headless_when_authenticated == with_file(file).edge.headless_when_authenticated,
        o.log_level is None && variable(env, "M365_LOG_LEVEL"@) is None ==> loaded(file, env, o).logging.level == with_file(file).logging.level,
        variable(env, "M365_LOG_FORMAT"@) is None ==> loaded(file, env, o).logging.format == with_file(file).logging.format,
        !o.no_tui && variable(env, "M365_TUI"@) is None ==> loaded(file, env, o).ui.tui == with_file(file).ui.tui,
        !o.no_tray && variable(env, "M365_TRAY"@) is None ==> loaded(file, env, o).ui.tray == with_file(file).ui.tray,
        with_file(FileConfig::Absent) == default_config(),
{
}

/// Of the places of the configuration file the first one that there is wins: the flag's, the
/// environment's, the working directory's, the user's.
pub proof fn law_first_place_wins(
    flag: Option<Seq<char>>,
    env: Option<Seq<char>>,
    local_exists: bool,
    config_dir: Option<Seq<char>>,
    os: Os,
)
    ensures
        flag is Some ==> config_path(flag, env, local_exists, config_dir, os) == flag,
        flag is None && env is Some ==> config_path(flag, env, local_exists, config_dir, os)
            == env,
        flag is None && env is None && local_exists ==> config_path(
            flag,
            env,
            local_exists,
            config_dir,
            os,
        ) == Some("config.toml"@),
        flag is None && env is None && !local_exists && config_dir is Some ==> config_path(
            flag,
            env,
            local_exists,
            config_dir,
            os,
        ) == Some(user_config(config_dir->0, os)),
{
}

/// A token in the settings comes before the one that the environment file assigns.
pub proof fn law_configured_token_comes_first(
    c: ConfigView,
    token: Seq<char>,
    env_file: Option<Seq<char>>,
)
    requires
        c.token.access_token == Some(token),
        token.len() > 0,
    ensures
        settings_of(c, env_file).access_token == token,
{
}

/// Of the variables of one name the first counts; one that is not there has no value.
pub proof fn law_first_variable_counts(
    env: Seq<(Seq<char>, Seq<char>)>,
    name: Seq<char>,
    at: int,
)
    requires
        0 <= at <= env.len(),
        forall|i: int| 0 <= i < at ==> (#[trigger] env[i]).0 != name,
        at < env.len() ==> env[at].0 == name,
    ensures
        variable(env, name) == if at < env.len() {
            Some(env[at].1)
        } else {
            None
        },
    decreases at,
{
    if at > 0 {
        assert(env[0].0 != name);
        let rest = env.skip(1);
        assert forall|i: int| 0 <= i < at - 1 implies (#[trigger] rest[i]).0 != name by {
            assert(rest[i] == env[i + 1]);
        }
        law_first_variable_counts(rest, name, at - 1);
    }
}

/// A variable switches on with `1`, `true`, `yes` or `on`, in any case and with white space
/// around it, and off with anything else.
pub proof fn law_words_that_switch_on(value: Seq<char>)
    ensures
        truthy(value) <==> exists|word: Seq<char>|
            (word == "1"@ || word == "true"@ || word == "yes"@ || word == "on"@)
                && #[trigger] text::same_ignoring_case(text::trimmed(value), word),
        truthy(value) == truthy(text::trimmed(value)),
{
    text::lemma_trim_idempotent(value);
}

/// A file that could be read whole decides all settings; of one that could be read in part, each
/// table that could be read decides its settings, and the defaults decide the others.
pub proof fn law_tables_of_the_file_decide(
    whole: AppConfig,
    server: Option<ServerConfig>,
    token: Option<TokenConfig>,
    edge: Option<EdgeConfig>,
    logging: Option<LoggingConfig>,
    ui: Option<UiConfig>,
)
    ensures
        with_file(FileConfig::Whole(whole)) == whole@,
        ({
            let c = with_file(FileConfig::Tables { server, token, edge, logging, ui });
            let d = default_config();
            &&& server matches Some(table) ==> c.server == table@
            &&& server is None ==> c.server == d.server
            &&& token matches Some(table) ==> c.token == table@
            &&& token is None ==> c.token == d.token
            &&& edge matches Some(table) ==> c.edge == table@
            &&& edge is None ==> c.edge == d.edge
            &&& logging matches Some(table) ==> c.logging == table@
            &&& logging is None ==> c.logging == d.logging
            &&& ui matches Some(table) ==> c.ui == table
            &&& ui is None ==> c.ui == d.ui
        }),
{
}

/// The chat client gets the time zone and the model's name that are set, and the token that is
/// set; without one, that of the environment file, and without that none.
pub proof fn law_chat_client_gets_what_is_set(
    c: ConfigView,
    env_file: Option<Seq<char>>,
    token: Seq<char>,
)
    ensures
        settings_of(c, env_file).time_zone == c.token.time_zone,
        settings_of(c, env_file).model_alias == c.token.model_alias,
        c.token.access_token == Some(token) && token.len() > 0 ==> settings_of(
            c,
            env_file,
        ).access_token == token,
        (c.token.access_token is None || c.token.access_token->0.len() == 0) && env_file is Some
            && token_store::env_token(env_file->0) == Some(token) ==> settings_of(
            c,
            env_file,
        ).access_token == token,
        (c.token.access_token is None || c.token.access_token->0.len() == 0) && (env_file is None
            || token_store::env_token(env_file->0) is None) ==> settings_of(
            c,
            env_file,
        ).access_token.len() == 0,
{
}

/// The server listens at its host and its port: the address is the host, a colon, and digits that
/// spell the port.
pub proof fn law_address_is_host_and_port(c: ConfigView)
    ensures
        text::begins_with(address_of(c), c.server.host),
        address_of(c).len() > c.server.host.len(),
        address_of(c)[c.server.host.len() as int] == ':',
        text::unsigned_value(address_of(c).skip(c.server.host.len() as int + 1)) == Some(
            c.server.port as int,
        ),
{
    reveal_strlit(":");
    let n = c.server.host.len() as int;
    text::law_decimal_spells_the_number(c.server.port as int);
    assert(address_of(c).take(n) =~= c.server.host);
    assert(address_of(c).skip(n + 1) =~= text::decimal(c.server.port as int));
}

/// A profile that is set is used; else it lies below the home directory, or below the working
/// directory where there is no home. The file of the user's settings lies below the user's
/// configuration directory.
pub proof fn law_profile_and_file_have_their_places(
    c: ConfigView,
    home: Option<Seq<char>>,
    dir: Seq<char>,
    os: Os,
)
    ensures
        c.edge.profile_dir matches Some(set) ==> profile_of(c, home, os) == set,
        c.edge.profile_dir is None ==> profile_of(c, home, os) == platform::joined_path(
            os,
            platform::joined_path(
                os,
                match home {
                    Some(home) => home,
                    None => "."@,
                },
                ".m365-copilot-proxy"@,
            ),
            "edge-profile"@,
        ),
        config_path(None, None, false, Some(dir), os) == Some(
            platform::joined_path(
                os,
                platform::joined_path(os, dir, "m365-copilot-proxy"@),
                "config.toml"@,
            ),
        ),
        config_path(None, None, false, None, os) is None,
{
}

/// Where nothing is set, the proxy listens on this machine alone, renews its token by itself, starts
/// the browser, and shows both the dashboard and the tray.
pub proof fn law_what_holds_where_nothing_is_set()
    ensures
        default_config().server.host == "127.0.0.1"@,
        default_config().server.port == 8000,
        default_config().token.access_token is None,
        default_config().token.env_file == ".env"@,
        default_config().token.time_zone == "Asia/Tokyo"@,
        default_config().token.model_alias == "m365-copilot"@,
        default_config().token.auto_refresh,
        default_config().token.capture_on_start,
        default_config().token.capture_timeout_seconds == 180,
        default_config().token.refresh_before_seconds == 300,
        default_config().token.refresh_retry_seconds == 60,
        default_config().edge.cdp_port == 9222,
        default_config().edge.launch_on_start,
        default_config().edge.profile_dir is None,
        default_config().edge.executable is None,
        default_config().edge.headless_when_authenticated,
        default_config().logging.level == "info"@,
        default_config().logging.format == "pretty"@,
        default_config().ui.tui,
        default_config().ui.tray,
        default_settings().access_token.len() == 0,
        default_settings().time_zone == default_config().token.time_zone,
        default_settings().model_alias == default_config().token.model_alias,
{
}

} // verus!
