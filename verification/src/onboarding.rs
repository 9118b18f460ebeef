//! The setup wizard: what each key does, what is shown, and what is saved.
use vstd::prelude::*;
use vstd::string::*;

use crate::bootstrap::BootstrapReport;
use crate::browsers::{self, DetectedBrowser};
use crate::config::{self, AppConfig, ServeOverrides};
use crate::keys::Key;
use crate::platform::{self, same_path, Os};
use crate::text::{self, trim_text, unsigned_text};

verus! {

// ---------------------------------------------------------------------------------------------
// Whether the wizard runs
// ---------------------------------------------------------------------------------------------

/// What is said where the wizard cannot run.
pub const NEEDS_TERMINAL: &'static str = "onboarding requires an interactive terminal (TTY). Run from a terminal, not a pipe.";

/// What is said where the wizard was left.
pub const CANCELLED: &'static str = "onboarding cancelled";

/// Whether setup is due: at the first run, which makes the configuration file.
pub fn needs_onboarding(report: &BootstrapReport) -> (due: bool)
    ensures
        due == report.config_created,
{
    report.config_created
}

/// What a start does about setup.
#[derive(Debug, Clone, Copy, PartialEq, Eq, Structural)]
pub enum SetupPlan {
    /// Nothing: the settings stay as they are.
    Keep,
    /// Say that the file was made and how to run the wizard; the settings stay as they are.
    Announce,
    /// Run the wizard.
    Run,
}

/// What a start does about setup: the wizard runs when setup is due and not skipped, on a
/// terminal with its interface switched on.
pub fn maybe_run_onboarding(
    report: &BootstrapReport,
    overrides: &ServeOverrides,
    config: &AppConfig,
    terminal: bool,
) -> (plan: SetupPlan)
    ensures
        plan == if overrides.skip_onboarding || !report.config_created {
            SetupPlan::Keep
        } else if !terminal || !config.ui.tui {
            SetupPlan::Announce
        } else {
            SetupPlan::Run
        },
{
    if overrides.skip_onboarding || !needs_onboarding(report) {
        SetupPlan::Keep
    } else if !terminal || !config.ui.tui {
        SetupPlan::Announce
    } else {
        SetupPlan::Run
    }
}

/// What is said where the wizard does not run at the first start.
pub fn announcement(config_path: &str) -> (message: String)
    ensures
        message@ == "First run: configuration written to "@ + config_path@ + ".\n"@
            + "Run `copilot-openai-proxy onboard` to configure interactively.\n"@,
{
    let mut message = "First run: configuration written to ".to_owned();
    message.append(config_path);
    message.append(".\n");
    message.append("Run `copilot-openai-proxy onboard` to configure interactively.\n");
    message
}

// ---------------------------------------------------------------------------------------------
// The wizard
// ---------------------------------------------------------------------------------------------

/// A page of the wizard.
#[derive(Debug, Clone, Copy, PartialEq, Eq, Structural)]
pub enum Step {
    Welcome,
    Browser,
    Server,
    Options,
    Confirm,
}

/// A field that is typed into.
#[derive(Debug, Clone, Copy, PartialEq, Eq, Structural)]
pub enum EditField {
    Host,
    Port,
    CdpPort,
    CustomBrowserPath,
}

/// The wizard.
pub struct OnboardState {
    pub config: AppConfig,
    pub step: Step,
    pub browsers: Vec<DetectedBrowser>,
    /// 0 for any browser that is found, then the browsers that were found, then a path of one's
    /// own, then a download.
    pub browser_choice: usize,
    pub custom_browser_path: String,
    pub editing: Option<EditField>,
    pub option_idx: usize,
    pub cancelled: bool,
}

/// The wizard.
pub struct OnboardView {
    pub config: config::ConfigView,
    pub step: Step,
    pub browsers: Seq<browsers::BrowserView>,
    pub browser_choice: int,
    pub custom_browser_path: Seq<char>,
    pub editing: Option<EditField>,
    pub option_idx: int,
    pub cancelled: bool,
}

impl View for OnboardState {
    type V = OnboardView;

    open spec fn view(&self) -> OnboardView {
        OnboardView {
            config: self.config@,
            step: self.step,
            browsers: browsers::browser_views(self.browsers@),
            browser_choice: self.browser_choice as int,
            custom_browser_path: self.custom_browser_path@,
            editing: self.editing,
            option_idx: self.option_idx as int,
            cancelled: self.cancelled,
        }
    }
}

impl OnboardView {
    /// The choices are among those there are.
    pub open spec fn wf(self) -> bool {
        &&& self.browsers.len() + 2 <= usize::MAX
        &&& 0 <= self.browser_choice <= self.browsers.len() + 2
        &&& 0 <= self.option_idx <= 4
        &&& !(self.step is Options) ==> self.option_idx <= 2 || self.step is Confirm
    }

    /// The choice of a path of one's own.
    pub open spec fn custom_choice(self) -> int {
        self.browsers.len() as int + 1
    }

    /// The choice of a download.
    pub open spec fn download_choice(self) -> int {
        self.browsers.len() as int + 2
    }
}

/// The place of a path among browsers.
pub open spec fn choice_of(
    os: Os,
    found: Seq<browsers::BrowserView>,
    path: Seq<char>,
) -> Option<int>
    decreases found.len(),
{
    if found.len() == 0 {
        None
    } else {
        match choice_of(os, found.drop_last(), path) {
            Some(i) => Some(i),
            None => if platform::same_place(os, found.last().path, path) {
                Some(found.len() - 1)
            } else {
                None
            },
        }
    }
}

/// The wizard at its beginning: the configured browser is chosen, and on macOS the tray is off.
pub open spec fn beginning(
    c: config::ConfigView,
    found: Seq<browsers::BrowserView>,
    os: Os,
) -> OnboardView {
    let choice = match c.edge.executable {
        Some(path) => match choice_of(os, found, path) {
            Some(i) => (i + 1, Seq::<char>::empty()),
            None => (found.len() as int + 1, path),
        },
        None => (0int, Seq::<char>::empty()),
    };
    OnboardView {
        config: config::ConfigView {
            ui: config::UiConfig { tui: c.ui.tui, tray: c.ui.tray && !(os is Macos) },
            ..c
        },
        step: Step::Welcome,
        browsers: found,
        browser_choice: choice.0,
        custom_browser_path: choice.1,
        editing: None,
        option_idx: 0,
        cancelled: false,
    }
}

/// A port with a digit typed behind it, or the highest port where that would be higher.
pub open spec fn with_digit(port: u16, digit: int) -> u16 {
    if port * 10 + digit > u16::MAX {
        u16::MAX
    } else {
        (port * 10 + digit) as u16
    }
}

/// A text without its last character.
pub open spec fn popped(s: Seq<char>) -> Seq<char> {
    if s.len() == 0 {
        s
    } else {
        s.drop_last()
    }
}

/// Settings with another host.
pub open spec fn with_host(c: config::ConfigView, host: Seq<char>) -> config::ConfigView {
    config::ConfigView { server: config::ServerView { host, ..c.server }, ..c }
}

/// Settings with another port.
pub open spec fn with_port(c: config::ConfigView, port: u16) -> config::ConfigView {
    config::ConfigView { server: config::ServerView { port, ..c.server }, ..c }
}

/// Settings with another debugging port.
pub open spec fn with_cdp_port(c: config::ConfigView, cdp_port: u16) -> config::ConfigView {
    config::ConfigView { edge: config::EdgeView { cdp_port, ..c.edge }, ..c }
}

/// The wizard with other settings.
pub open spec fn with_config(s: OnboardView, config: config::ConfigView) -> OnboardView {
    OnboardView { config, ..s }
}

/// The settings once a field was left: an empty host and a port of zero become the default.
pub open spec fn settled(c: config::ConfigView, field: EditField) -> config::ConfigView {
    match field {
        EditField::Host => if c.server.host.len() == 0 {
            with_host(c, "127.0.0.1"@)
        } else {
            c
        },
        EditField::Port => if c.server.port == 0 {
            with_port(c, 8000)
        } else {
            c
        },
        EditField::CdpPort => if c.edge.cdp_port == 0 {
            with_cdp_port(c, 9222)
        } else {
            c
        },
        EditField::CustomBrowserPath => c,
    }
}

/// After backspace in a field.
pub open spec fn after_backspace(s: OnboardView, field: EditField) -> OnboardView {
    match field {
        EditField::CustomBrowserPath => OnboardView {
            custom_browser_path: popped(s.custom_browser_path),
            ..s
        },
        EditField::Host => with_config(s, with_host(s.config, popped(s.config.server.host))),
        EditField::Port => with_config(
            s,
            with_port(s.config, (s.config.server.port as int / 10) as u16),
        ),
        EditField::CdpPort => with_config(
            s,
            with_cdp_port(s.config, (s.config.edge.cdp_port as int / 10) as u16),
        ),
    }
}

/// After a character in a field; ports take digits alone.
pub open spec fn after_typing(s: OnboardView, field: EditField, c: char) -> OnboardView {
    match field {
        EditField::CustomBrowserPath => OnboardView {
            custom_browser_path: s.custom_browser_path.push(c),
            ..s
        },
        EditField::Host => with_config(s, with_host(s.config, s.config.server.host.push(c))),
        EditField::Port => if text::is_digit(c) {
            with_config(
                s,
                with_port(s.config, with_digit(s.config.server.port, c as int - '0' as int)),
            )
        } else {
            s
        },
        EditField::CdpPort => if text::is_digit(c) {
            with_config(
                s,
                with_cdp_port(
                    s.config,
                    with_digit(s.config.edge.cdp_port, c as int - '0' as int),
                ),
            )
        } else {
            s
        },
    }
}

/// After a key while a field is typed into.
pub open spec fn after_edit_key(
    s: OnboardView,
    field: EditField,
    key: Key,
    ctrl: bool,
) -> OnboardView {
    match key {
        Key::Esc => OnboardView { editing: None, ..s },
        Key::Enter => OnboardView {
            config: settled(s.config, field),
            editing: None,
            step: if s.step is Browser && field is CustomBrowserPath {
                Step::Server
            } else {
                s.step
            },
            ..s
        },
        Key::Backspace => after_backspace(s, field),
        Key::Char(c) if !ctrl => after_typing(s, field, c),
        _ => s,
    }
}

/// Settings with an option switched over.
pub open spec fn toggled(c: config::ConfigView, option: int) -> config::ConfigView {
    if option == 0 {
        config::ConfigView {
            edge: config::EdgeView { launch_on_start: !c.edge.launch_on_start, ..c.edge },
            ..c
        }
    } else if option == 1 {
        config::ConfigView {
            token: config::TokenView { auto_refresh: !c.token.auto_refresh, ..c.token },
            ..c
        }
    } else if option == 2 {
        config::ConfigView {
            token: config::TokenView { capture_on_start: !c.token.capture_on_start, ..c.token },
            ..c
        }
    } else if option == 3 {
        config::ConfigView { ui: config::UiConfig { tui: !c.ui.tui, tray: c.ui.tray }, ..c }
    } else if option == 4 {
        config::ConfigView { ui: config::UiConfig { tui: c.ui.tui, tray: !c.ui.tray }, ..c }
    } else {
        c
    }
}

/// One less, but not below zero.
pub open spec fn up(i: int) -> int {
    if i > 0 {
        i - 1
    } else {
        i
    }
}

/// One more, but not above `max`.
pub open spec fn down(i: int, max: int) -> int {
    if i + 1 < max {
        i + 1
    } else {
        max
    }
}

/// After a key on the page of browsers.
pub open spec fn after_browser_key(s: OnboardView, key: Key) -> OnboardView {
    if key is Up || key == Key::Char('k') {
        OnboardView { browser_choice: up(s.browser_choice), ..s }
    } else if key is Down || key == Key::Char('j') {
        OnboardView { browser_choice: down(s.browser_choice, s.download_choice()), ..s }
    } else if key is Enter {
        if s.browser_choice == s.custom_choice() {
            OnboardView { editing: Some(EditField::CustomBrowserPath), ..s }
        } else {
            OnboardView { step: Step::Server, ..s }
        }
    } else {
        s
    }
}

/// After a key on the page of addresses.
pub open spec fn after_server_key(s: OnboardView, key: Key) -> OnboardView {
    if key is Up || key == Key::Char('k') {
        OnboardView { option_idx: up(s.option_idx), ..s }
    } else if key is Down || key == Key::Char('j') {
        OnboardView { option_idx: down(s.option_idx, 2), ..s }
    } else if key is Enter {
        if s.option_idx == 0 {
            OnboardView { editing: Some(EditField::Host), ..s }
        } else if s.option_idx == 1 {
            OnboardView { editing: Some(EditField::Port), ..s }
        } else if s.option_idx == 2 {
            OnboardView { editing: Some(EditField::CdpPort), ..s }
        } else {
            s
        }
    } else if key is Tab || key is Right || key == Key::Char('l') {
        OnboardView { step: Step::Options, option_idx: 0, ..s }
    } else {
        s
    }
}

/// After a key on the page of options.
pub open spec fn after_option_key(s: OnboardView, key: Key) -> OnboardView {
    if key is Up || key == Key::Char('k') {
        OnboardView { option_idx: up(s.option_idx), ..s }
    } else if key is Down || key == Key::Char('j') {
        OnboardView { option_idx: down(s.option_idx, 4), ..s }
    } else if key is Enter || key == Key::Char(' ') {
        with_config(s, toggled(s.config, s.option_idx))
    } else if key is Tab || key is Right || key == Key::Char('l') {
        OnboardView { step: Step::Confirm, ..s }
    } else {
        s
    }
}

/// After a key.
pub open spec fn after_key(s: OnboardView, key: Key, ctrl: bool) -> OnboardView {
    if s.editing is Some {
        after_edit_key(s, s.editing->0, key, ctrl)
    } else if key is Esc || key == Key::Char('q') {
        OnboardView { cancelled: true, ..s }
    } else {
        match s.step {
            Step::Welcome => if key is Enter {
                OnboardView { step: Step::Browser, ..s }
            } else {
                s
            },
            Step::Browser => after_browser_key(s, key),
            Step::Server => after_server_key(s, key),
            Step::Options => after_option_key(s, key),
            Step::Confirm => s,
        }
    }
}

/// The key confirms the settings.
pub open spec fn confirms(s: OnboardView, key: Key) -> bool {
    s.editing is None && s.step is Confirm && key is Enter
}

/// One less, but not below zero.
fn move_up(i: usize) -> (moved: usize)
    ensures
        moved == up(i as int),
{
    if i > 0 {
        i - 1
    } else {
        i
    }
}

/// One more, but not above `max`.
fn move_down(i: usize, max: usize) -> (moved: usize)
    requires
        i <= max,
    ensures
        moved == down(i as int, max as int),
{
    if i < max {
        i + 1
    } else {
        max
    }
}

/// A port with a digit typed behind it.
fn push_digit(port: u16, digit: u16) -> (typed: u16)
    requires
        digit <= 9,
    ensures
        typed == with_digit(port, digit as int),
{
    let typed: u32 = port as u32 * 10 + digit as u32;
    if typed > 65535 {
        65535
    } else {
        typed as u16
    }
}

/// A port without its last digit.
fn pop_digit(value: u16) -> (rest: u16)
    ensures
        rest == (value as int / 10) as u16,
{
    value / 10
}

/// The digit that a character is.
fn digit_of(c: char) -> (digit: Option<u16>)
    ensures
        match digit {
            Some(d) => text::is_digit(c) && d == c as int - '0' as int && d <= 9,
            None => !text::is_digit(c),
        },
{
    if '0' <= c && c <= '9' {
        let n: u8 = c as u8;
        Some((n - 48) as u16)
    } else {
        None
    }
}

impl OnboardState {
    /// The wizard at its beginning, with the browsers that were found.
    pub fn new(config: AppConfig, found: Vec<DetectedBrowser>, os: Os) -> (state: Self)
        requires
            found@.len() + 2 <= usize::MAX,
        ensures
            state@ == beginning(config@, browsers::browser_views(found@), os),
            state@.wf(),
    {
        let ghost views = browsers::browser_views(found@);
        assert(views.len() == found@.len());
        let mut config = config;
        let mut custom_browser_path = String::new();
        let mut browser_choice: usize = 0;
        if let Some(path) = &config.edge.executable {
            match choice_among(os, found.as_slice(), path.as_str()) {
                Some(i) => {
                    browser_choice = i + 1;
                },
                None => {
                    custom_browser_path = path.clone();
                    browser_choice = found.len() + 1;
                },
            }
        }
        if matches!(os, Os::Macos) {
            config.ui.tray = false;
        }
        OnboardState {
            config,
            step: Step::Welcome,
            browsers: found,
            browser_choice,
            custom_browser_path,
            editing: None,
            option_idx: 0,
            cancelled: false,
        }
    }

    /// Puts a default in place of a field that was left empty.
    fn apply_edit_field(&mut self, field: EditField)
        ensures
            final(self)@ == with_config(old(self)@, settled(old(self)@.config, field)),
    {
        match field {
            EditField::Host => if self.config.server.host.as_str().unicode_len() == 0 {
                self.config.server.host = "127.0.0.1".to_owned();
            },
            EditField::Port => if self.config.server.port == 0 {
                self.config.server.port = 8000;
            },
            EditField::CdpPort => if self.config.edge.cdp_port == 0 {
                self.config.edge.cdp_port = 9222;
            },
            EditField::CustomBrowserPath => {},
        }
    }

    /// Takes the last character of a field away.
    fn erase(&mut self, field: EditField)
        ensures
            final(self)@ == after_backspace(old(self)@, field),
    {
        match field {
            EditField::CustomBrowserPath => {
                let _ = self.custom_browser_path.pop();
            },
            EditField::Host => {
                let _ = self.config.server.host.pop();
            },
            EditField::Port => {
                self.config.server.port = pop_digit(self.config.server.port);
            },
            EditField::CdpPort => {
                self.config.edge.cdp_port = pop_digit(self.config.edge.cdp_port);
            },
        }
    }

    /// Types a character into a field.
    fn type_char(&mut self, field: EditField, c: char)
        ensures
            final(self)@ == after_typing(old(self)@, field, c),
    {
        match field {
            EditField::CustomBrowserPath => {
                self.custom_browser_path.push(c);
            },
            EditField::Host => {
                self.config.server.host.push(c);
            },
            EditField::Port => {
                if let Some(digit) = digit_of(c) {
                    self.config.server.port = push_digit(self.config.server.port, digit);
                }
            },
            EditField::CdpPort => {
                if let Some(digit) = digit_of(c) {
                    self.config.edge.cdp_port = push_digit(self.config.edge.cdp_port, digit);
                }
            },
        }
    }

    /// Takes a key while a field is typed into.
    fn handle_edit_key(&mut self, field: EditField, key: Key, ctrl: bool)
        ensures
            final(self)@ == after_edit_key(old(self)@, field, key, ctrl),
    {
        match key {
            Key::Esc => {
                self.editing = None;
            },
            Key::Enter => {
                self.apply_edit_field(field);
                self.editing = None;
                if matches!(self.step, Step::Browser) && matches!(
                    field,
                    EditField::CustomBrowserPath
                ) {
                    self.step = Step::Server;
                }
            },
            Key::Backspace => {
                self.erase(field);
            },
            Key::Char(c) => {
                if !ctrl {
                    self.type_char(field, c);
                }
            },
            _ => {},
        }
    }

    /// Switches the chosen option over.
    fn toggle_option(&mut self)
        ensures
            final(self)@ == with_config(
                old(self)@,
                toggled(old(self)@.config, old(self)@.option_idx),
            ),
    {
        if self.option_idx == 0 {
            self.config.edge.launch_on_start = !self.config.edge.launch_on_start;
        } else if self.option_idx == 1 {
            self.config.token.auto_refresh = !self.config.token.auto_refresh;
        } else if self.option_idx == 2 {
            self.config.token.capture_on_start = !self.config.token.capture_on_start;
        } else if self.option_idx == 3 {
            self.config.ui.tui = !self.config.ui.tui;
        } else if self.option_idx == 4 {
            self.config.ui.tray = !self.config.ui.tray;
        }
    }

    /// Takes a key on the page of browsers.
    fn handle_browser_key(&mut self, key: Key)
        requires
            old(self)@.wf(),
        ensures
            final(self)@ == after_browser_key(old(self)@, key),
    {
        assert(self@.browsers.len() == self.browsers@.len());
        match key {
            Key::Up | Key::Char('k') => {
                self.browser_choice = move_up(self.browser_choice);
            },
            Key::Down | Key::Char('j') => {
                self.browser_choice = move_down(self.browser_choice, self.browsers.len() + 2);
            },
            Key::Enter => {
                if self.browser_choice == self.browsers.len() + 1 {
                    self.editing = Some(EditField::CustomBrowserPath);
                } else {
                    self.step = Step::Server;
                }
            },
            _ => {},
        }
    }

    /// Takes a key on the page of addresses.
    fn handle_server_key(&mut self, key: Key)
        requires
            old(self)@.wf(),
            old(self)@.step is Server,
        ensures
            final(self)@ == after_server_key(old(self)@, key),
    {
        match key {
            Key::Up | Key::Char('k') => {
                self.option_idx = move_up(self.option_idx);
            },
            Key::Down | Key::Char('j') => {
                self.option_idx = move_down(self.option_idx, 2);
            },
            Key::Enter => {
                if self.option_idx == 0 {
                    self.editing = Some(EditField::Host);
                } else if self.option_idx == 1 {
                    self.editing = Some(EditField::Port);
                } else if self.option_idx == 2 {
                    self.editing = Some(EditField::CdpPort);
                }
            },
            Key::Tab | Key::Right | Key::Char('l') => {
                self.step = Step::Options;
                self.option_idx = 0;
            },
            _ => {},
        }
    }

    /// Takes a key on the page of options.
    fn handle_option_key(&mut self, key: Key)
        requires
            old(self)@.wf(),
        ensures
            final(self)@ == after_option_key(old(self)@, key),
    {
        match key {
            Key::Up | Key::Char('k') => {
                self.option_idx = move_up(self.option_idx);
            },
            Key::Down | Key::Char('j') => {
                self.option_idx = move_down(self.option_idx, 4);
            },
            Key::Enter | Key::Char(' ') => {
                self.toggle_option();
            },
            Key::Tab | Key::Right | Key::Char('l') => {
                self.step = Step::Confirm;
            },
            _ => {},
        }
    }

    /// Takes a key; whether it confirms the settings.
    pub fn handle_key(&mut self, key: Key, ctrl: bool) -> (confirmed: bool)
        requires
            old(self)@.wf(),
        ensures
            final(self)@ == after_key(old(self)@, key, ctrl),
            final(self)@.wf(),
            confirmed == confirms(old(self)@, key),
    {
        if let Some(field) = self.editing {
            self.handle_edit_key(field, key, ctrl);
            return false;
        }
        if matches!(key, Key::Esc) || matches!(key, Key::Char('q')) {
            self.cancelled = true;
            return false;
        }
        match self.step {
            Step::Welcome => {
                if matches!(key, Key::Enter) {
                    self.step = Step::Browser;
                }
                false
            },
            Step::Browser => {
                self.handle_browser_key(key);
                false
            },
            Step::Server => {
                self.handle_server_key(key);
                false
            },
            Step::Options => {
                self.handle_option_key(key);
                false
            },
            Step::Confirm => matches!(key, Key::Enter),
        }
    }
}

/// The place of a path among browsers.
fn choice_among(os: Os, found: &[DetectedBrowser], path: &str) -> (choice: Option<usize>)
    ensures
        choice_of(os, browsers::browser_views(found@), path@) == match choice {
            Some(i) => Some(i as int),
            None => None::<int>,
        },
        choice matches Some(i) ==> i < found@.len(),
{
    let ghost all = browsers::browser_views(found@);
    let mut choice: Option<usize> = None;
    assert(all.take(0) =~= Seq::empty());
    for i in 0..found.len()
        invariant
            all == browsers::browser_views(found@),
            choice matches Some(k) ==> k < i,
            choice_of(os, all.take(i as int), path@) == match choice {
                Some(k) => Some(k as int),
                None => None::<int>,
            },
    {
        proof {
            assert(all.take(i + 1).drop_last() =~= all.take(i as int));
            assert(all.take(i + 1).last() == found@[i as int]@);
        }
        if choice.is_none() && same_path(os, found[i].path.as_str(), path) {
            choice = Some(i);
        }
    }
    assert(all.take(all.len() as int) =~= all);
    assert(all.len() == found@.len());
    choice
}

// ---------------------------------------------------------------------------------------------
// What the wizard comes to
// ---------------------------------------------------------------------------------------------

/// The browser that was chosen; `installed` is the one that a download left. Without one the
/// first that is found is used.
pub open spec fn chosen_browser(s: OnboardView, installed: Option<Seq<char>>) -> Option<Seq<char>> {
    if s.browser_choice == 0 {
        None
    } else if s.browser_choice <= s.browsers.len() {
        Some(s.browsers[s.browser_choice - 1].path)
    } else if s.browser_choice == s.custom_choice() {
        let path = text::trimmed(s.custom_browser_path);
        if path.len() == 0 {
            None
        } else {
            Some(path)
        }
    } else {
        installed
    }
}

/// The settings with the browser that was chosen.
pub open spec fn chosen_config(s: OnboardView, installed: Option<Seq<char>>) -> config::ConfigView {
    config::ConfigView {
        edge: config::EdgeView { executable: chosen_browser(s, installed), ..s.config.edge },
        ..s.config
    }
}

/// How the choice of a browser is called.
pub open spec fn choice_name(s: OnboardView) -> Seq<char> {
    if s.browser_choice == 0 {
        "auto-detect"@
    } else if s.browser_choice <= s.browsers.len() {
        s.browsers[s.browser_choice - 1].label
    } else if s.browser_choice == s.custom_choice() {
        if text::trimmed(s.custom_browser_path).len() == 0 {
            "auto-detect"@
        } else {
            s.custom_browser_path
        }
    } else {
        "download Chromium"@
    }
}

/// Whether the wizard ends after a key: with `Some(true)` it was confirmed and the settings are
/// saved, with `Some(false)` it was left and they are not.
pub open spec fn ending(s: OnboardView, confirmed: bool) -> Option<bool> {
    if s.cancelled {
        Some(false)
    } else if confirmed && s.step is Confirm {
        Some(true)
    } else {
        None
    }
}

impl OnboardState {
    /// Whether the wizard ends after a key that confirmed, or did not: with `Some(true)` the
    /// settings are saved, with `Some(false)` they are not.
    pub fn ends(&self, confirmed: bool) -> (end: Option<bool>)
        ensures
            end == ending(self@, confirmed),
    {
        if self.cancelled {
            Some(false)
        } else if confirmed && matches!(self.step, Step::Confirm) {
            Some(true)
        } else {
            None
        }
    }

    /// Whether a browser is to be downloaded.
    pub fn wants_download(&self) -> (b: bool)
        requires
            self@.wf(),
        ensures
            b == (self@.browser_choice == self@.download_choice()),
    {
        assert(self@.browsers.len() == self.browsers@.len());
        self.browser_choice == self.browsers.len() + 2
    }

    /// Sets the browser that was chosen; `installed` is the one that a download left.
    pub fn apply_browser_choice(&mut self, installed: Option<String>)
        requires
            old(self)@.wf(),
        ensures
            final(self)@ == with_config(
                old(self)@,
                chosen_config(old(self)@, text::string_view(installed)),
            ),
    {
        assert(self@.browsers.len() == self.browsers@.len());
        if self.browser_choice == 0 {
            self.config.edge.executable = None;
        } else if self.browser_choice <= self.browsers.len() {
            assert(self@.browsers[self.browser_choice - 1] == self.browsers@[self.browser_choice
                - 1]@);
            let path = self.browsers[self.browser_choice - 1].path.clone();
            self.config.edge.executable = Some(path);
        } else if self.browser_choice == self.browsers.len() + 1 {
            let path = trim_text(self.custom_browser_path.as_str());
            if path.as_str().unicode_len() == 0 {
                self.config.edge.executable = None;
            } else {
                self.config.edge.executable = Some(path);
            }
        } else {
            self.config.edge.executable = installed;
        }
    }

    /// The settings to save, where the wizard ended with saving; `installed` is the browser that
    /// a download left.
    pub fn conclude(self, saved: bool, installed: Option<String>) -> (config: Result<
        AppConfig,
        String,
    >)
        requires
            self@.wf(),
        ensures
            match config {
                Ok(config) => saved && !self@.cancelled && config@ == chosen_config(
                    self@,
                    text::string_view(installed),
                ),
                Err(e) => (!saved || self@.cancelled) && e@ == CANCELLED@,
            },
    {
        if self.cancelled || !saved {
            return Err(CANCELLED.to_owned());
        }
        let mut state = self;
        state.apply_browser_choice(installed);
        Ok(state.config)
    }

    /// How the choice of a browser is called.
    pub fn browser_summary(&self) -> (name: String)
        requires
            self@.wf(),
        ensures
            name@ == choice_name(self@),
    {
        assert(self@.browsers.len() == self.browsers@.len());
        if self.browser_choice == 0 {
            "auto-detect".to_owned()
        } else if self.browser_choice <= self.browsers.len() {
            assert(self@.browsers[self.browser_choice - 1] == self.browsers@[self.browser_choice
                - 1]@);
            self.browsers[self.browser_choice - 1].label.clone()
        } else if self.browser_choice == self.browsers.len() + 1 {
            let path = trim_text(self.custom_browser_path.as_str());
            if path.as_str().unicode_len() == 0 {
                "auto-detect".to_owned()
            } else {
                self.custom_browser_path.clone()
            }
        } else {
            "download Chromium".to_owned()
        }
    }
}

// ---------------------------------------------------------------------------------------------
// What is shown
// ---------------------------------------------------------------------------------------------

/// What stands before a line.
pub open spec fn marker(chosen: bool) -> Seq<char> {
    if chosen {
        "▸ "@
    } else {
        "  "@
    }
}

/// `on` or `off`.
pub open spec fn switch_name(on: bool) -> Seq<char> {
    if on {
        "on"@
    } else {
        "off"@
    }
}

/// The line for a path of one's own.
pub open spec fn custom_line(s: OnboardView) -> Seq<char> {
    if s.editing == Some(EditField::CustomBrowserPath) {
        "▸ Custom path: "@ + s.custom_browser_path + "_"@
    } else if s.browser_choice == s.custom_choice() {
        "▸ Custom path: "@ + if s.custom_browser_path.len() == 0 {
            "(Enter to type)"@
        } else {
            s.custom_browser_path
        }
    } else {
        "  Custom path..."@
    }
}

/// The line for a browser that was found.
pub open spec fn browser_line(s: OnboardView, i: int) -> Seq<char> {
    marker(s.browser_choice == i + 1) + s.browsers[i].label + " — "@ + s.browsers[i].path
}

/// The page of browsers.
pub open spec fn browser_page(s: OnboardView) -> Seq<Seq<char>> {
    let first = seq![marker(s.browser_choice == 0) + "Auto-detect (recommended)"@];
    let found = if s.browsers.len() == 0 {
        seq!["  (no browsers found — install Chrome/Edge or use Playwright)"@]
    } else {
        Seq::new(s.browsers.len(), |i: int| browser_line(s, i))
    };
    (first + found).push(custom_line(s)).push(
        marker(s.browser_choice == s.download_choice()) + "Download Chromium (~150 MB)"@,
    )
}

/// A line of the page of addresses.
pub open spec fn field_line(
    chosen: bool,
    label: Seq<char>,
    value: Seq<char>,
    typed: bool,
) -> Seq<char> {
    marker(chosen) + label + ": "@ + value + if typed {
        "_"@
    } else {
        Seq::empty()
    }
}

/// The page of addresses.
pub open spec fn server_page(s: OnboardView) -> Seq<Seq<char>> {
    seq![
        field_line(
            s.option_idx == 0,
            "HTTP host"@,
            s.config.server.host,
            s.editing == Some(EditField::Host),
        ),
        field_line(
            s.option_idx == 1,
            "HTTP port"@,
            text::decimal(s.config.server.port as int),
            s.editing == Some(EditField::Port),
        ),
        field_line(
            s.option_idx == 2,
            "CDP port"@,
            text::decimal(s.config.edge.cdp_port as int),
            s.editing == Some(EditField::CdpPort),
        ),
    ]
}

/// A line of the page of options.
pub open spec fn option_line(chosen: bool, label: Seq<char>, on: bool) -> Seq<char> {
    marker(chosen) + label + ": "@ + switch_name(on)
}

/// The page of options.
pub open spec fn options_page(s: OnboardView, os: Os) -> Seq<Seq<char>> {
    let options = seq![
        option_line(s.option_idx == 0, "Launch browser on start"@, s.config.edge.launch_on_start),
        option_line(s.option_idx == 1, "Auto-refresh token"@, s.config.token.auto_refresh),
        option_line(s.option_idx == 2, "Capture token on start"@, s.config.token.capture_on_start),
        option_line(s.option_idx == 3, "Terminal dashboard (TUI)"@, s.config.ui.tui),
        option_line(s.option_idx == 4, "System tray icon"@, s.config.ui.tray),
        Seq::empty(),
    ];
    if os is Macos {
        options.push(
            "  Note: system tray on macOS requires the main thread; left off by default."@,
        )
    } else {
        options
    }
}

/// The page that asks for confirmation.
pub open spec fn confirm_page(s: OnboardView) -> Seq<Seq<char>> {
    seq![
        "Review configuration:"@,
        Seq::empty(),
        "  Browser: "@ + choice_name(s),
        "  Listen:  http://"@ + config::address_of(s.config),
        "  CDP:     :"@ + text::decimal(s.config.edge.cdp_port as int),
        "  Token:   auto-refresh "@ + switch_name(s.config.token.auto_refresh)
            + ", capture on start "@ + switch_name(s.config.token.capture_on_start),
        "  UI:      TUI "@ + switch_name(s.config.ui.tui) + ", tray "@ + switch_name(
            s.config.ui.tray,
        ),
        Seq::empty(),
        "Press Enter to save and start the proxy."@,
    ]
}

/// The page of the first step.
pub open spec fn welcome_page() -> Seq<Seq<char>> {
    seq![
        "Welcome! Configure the proxy before first run."@,
        Seq::empty(),
        "You will set:"@,
        "  • Chromium browser (auto-detect, Playwright, or custom path)"@,
        "  • HTTP listen address and CDP port"@,
        "  • Token capture and UI options"@,
        Seq::empty(),
        "Press Enter to continue."@,
    ]
}

/// The page that is shown.
pub open spec fn page(s: OnboardView, os: Os) -> Seq<Seq<char>> {
    match s.step {
        Step::Welcome => welcome_page(),
        Step::Browser => browser_page(s),
        Step::Server => server_page(s),
        Step::Options => options_page(s, os),
        Step::Confirm => confirm_page(s),
    }
}

/// The keys that are explained below a page.
pub open spec fn help(step: Step) -> Seq<char> {
    match step {
        Step::Welcome => " Enter  continue   q  cancel "@,
        Step::Browser => " ↑↓  select   Enter  next   q  cancel "@,
        Step::Server => " ↑↓  field   Enter  edit   Tab  next   q  cancel "@,
        Step::Options => " ↑↓  option   Space  toggle   Tab  review   q  cancel "@,
        Step::Confirm => " Enter  save & start   q  cancel "@,
    }
}

/// What stands before a line.
fn mark(chosen: bool) -> (s: &'static str)
    ensures
        s@ == marker(chosen),
{
    if chosen {
        "▸ "
    } else {
        "  "
    }
}

/// `on` or `off`.
pub fn on_off(value: bool) -> (s: &'static str)
    ensures
        s@ == switch_name(value),
{
    if value {
        "on"
    } else {
        "off"
    }
}

/// The keys that are explained below a page.
pub fn help_line(step: Step) -> (s: &'static str)
    ensures
        s@ == help(step),
{
    match step {
        Step::Welcome => " Enter  continue   q  cancel ",
        Step::Browser => " ↑↓  select   Enter  next   q  cancel ",
        Step::Server => " ↑↓  field   Enter  edit   Tab  next   q  cancel ",
        Step::Options => " ↑↓  option   Space  toggle   Tab  review   q  cancel ",
        Step::Confirm => " Enter  save & start   q  cancel ",
    }
}

/// A line of the page of addresses.
fn field_text(chosen: bool, label: &str, value: &str, typed: bool) -> (line: String)
    ensures
        line@ == field_line(chosen, label@, value@, typed),
{
    let mut line = mark(chosen).to_owned();
    line.append(label);
    line.append(": ");
    line.append(value);
    if typed {
        line.append("_");
    } else {
        assert(line@ + Seq::<char>::empty() =~= line@);
    }
    line
}

/// A line of the page of options.
fn option_text(chosen: bool, label: &str, on: bool) -> (line: String)
    ensures
        line@ == option_line(chosen, label@, on),
{
    let mut line = mark(chosen).to_owned();
    line.append(label);
    line.append(": ");
    line.append(on_off(on));
    line
}

impl OnboardState {
    /// Whether the given field is typed into.
    fn is_editing(&self, field: EditField) -> (b: bool)
        ensures
            b == (self@.editing == Some(field)),
    {
        match self.editing {
            Some(edited) => edited == field,
            None => false,
        }
    }

    /// The line for a path of one's own.
    fn custom_text(&self) -> (line: String)
        requires
            self@.wf(),
        ensures
            line@ == custom_line(self@),
    {
        assert(self@.browsers.len() == self.browsers@.len());
        let mut line = "▸ Custom path: ".to_owned();
        if self.is_editing(EditField::CustomBrowserPath) {
            line.append(self.custom_browser_path.as_str());
            line.append("_");
            line
        } else if self.browser_choice == self.browsers.len() + 1 {
            if self.custom_browser_path.as_str().unicode_len() == 0 {
                line.append("(Enter to type)");
            } else {
                line.append(self.custom_browser_path.as_str());
            }
            line
        } else {
            "  Custom path...".to_owned()
        }
    }

    /// The page of browsers.
    fn browser_lines(&self) -> (lines: Vec<String>)
        requires
            self@.wf(),
        ensures
            text::views(lines@) == browser_page(self@),
    {
        assert(self@.browsers.len() == self.browsers@.len());
        let mut lines: Vec<String> = Vec::new();
        let mut first = mark(self.browser_choice == 0).to_owned();
        first.append("Auto-detect (recommended)");
        lines.push(first);
        let ghost top = seq![first@];
        assert(text::views(lines@) =~= top);
        if self.browsers.len() == 0 {
            lines.push("  (no browsers found — install Chrome/Edge or use Playwright)".to_owned());
            assert(text::views(lines@) =~= top
                + seq!["  (no browsers found — install Chrome/Edge or use Playwright)"@]);
        } else {
            let ghost all = Seq::new(self@.browsers.len(), |i: int| browser_line(self@, i));
            assert(top + all.take(0) =~= top);
            for i in 0..self.browsers.len()
                invariant
                    self@.wf(),
                    all == Seq::new(self@.browsers.len(), |i: int| browser_line(self@, i)),
                    text::views(lines@) == top + all.take(i as int),
            {
                assert(self@.browsers.len() == self.browsers@.len());
                assert(self@.browsers[i as int] == self.browsers@[i as int]@);
                let mut line = mark(self.browser_choice == i + 1).to_owned();
                line.append(self.browsers[i].label.as_str());
                line.append(" — ");
                line.append(self.browsers[i].path.as_str());
                assert(line@ == browser_line(self@, i as int));
                let ghost shown = text::views(lines@);
                lines.push(line);
                assert(text::views(lines@) =~= shown.push(line@));
                assert(all.take(i + 1) =~= all.take(i as int).push(line@));
                assert(text::views(lines@) =~= top + all.take(i + 1));
            }
            assert(all.take(all.len() as int) =~= all);
        }
        let ghost before = text::views(lines@);
        let custom = self.custom_text();
        let mut download = mark(self.browser_choice == self.browsers.len() + 2).to_owned();
        download.append("Download Chromium (~150 MB)");
        lines.push(custom);
        lines.push(download);
        assert(text::views(lines@) =~= before.push(custom@).push(download@));
        lines
    }

    /// The page of addresses.
    fn server_lines(&self) -> (lines: Vec<String>)
        ensures
            text::views(lines@) == server_page(self@),
    {
        let mut lines: Vec<String> = Vec::new();
        lines.push(
            field_text(
                self.option_idx == 0,
                "HTTP host",
                self.config.server.host.as_str(),
                self.is_editing(EditField::Host),
            ),
        );
        lines.push(
            field_text(
                self.option_idx == 1,
                "HTTP port",
                unsigned_text(self.config.server.port as u64).as_str(),
                self.is_editing(EditField::Port),
            ),
        );
        lines.push(
            field_text(
                self.option_idx == 2,
                "CDP port",
                unsigned_text(self.config.edge.cdp_port as u64).as_str(),
                self.is_editing(EditField::CdpPort),
            ),
        );
        assert(text::views(lines@) =~= server_page(self@));
        lines
    }

    /// The page of options.
    fn option_lines(&self, os: Os) -> (lines: Vec<String>)
        ensures
            text::views(lines@) == options_page(self@, os),
    {
        let mut lines: Vec<String> = Vec::new();
        lines.push(
            option_text(
                self.option_idx == 0,
                "Launch browser on start",
                self.config.edge.launch_on_start,
            ),
        );
        lines.push(
            option_text(self.option_idx == 1, "Auto-refresh token", self.config.token.auto_refresh),
        );
        lines.push(
            option_text(
                self.option_idx == 2,
                "Capture token on start",
                self.config.token.capture_on_start,
            ),
        );
        lines.push(
            option_text(self.option_idx == 3, "Terminal dashboard (TUI)", self.config.ui.tui),
        );
        lines.push(option_text(self.option_idx == 4, "System tray icon", self.config.ui.tray));
        lines.push(String::new());
        if matches!(os, Os::Macos) {
            lines.push(
                "  Note: system tray on macOS requires the main thread; left off by default.".to_owned(),
            );
        }
        assert(text::views(lines@) =~= options_page(self@, os));
        lines
    }

    /// The page that asks for confirmation.
    fn confirm_lines(&self) -> (lines: Vec<String>)
        requires
            self@.wf(),
        ensures
            text::views(lines@) == confirm_page(self@),
    {
        let mut browser = "  Browser: ".to_owned();
        browser.append(self.browser_summary().as_str());
        let mut listen = "  Listen:  http://".to_owned();
        listen.append(self.config.listen_addr().as_str());
        let mut cdp = "  CDP:     :".to_owned();
        cdp.append(unsigned_text(self.config.edge.cdp_port as u64).as_str());
        let mut token = "  Token:   auto-refresh ".to_owned();
        token.append(on_off(self.config.token.auto_refresh));
        token.append(", capture on start ");
        token.append(on_off(self.config.token.capture_on_start));
        let mut ui = "  UI:      TUI ".to_owned();
        ui.append(on_off(self.config.ui.tui));
        ui.append(", tray ");
        ui.append(on_off(self.config.ui.tray));
        let mut lines: Vec<String> = Vec::new();
        lines.push("Review configuration:".to_owned());
        lines.push(String::new());
        lines.push(browser);
        lines.push(listen);
        lines.push(cdp);
        lines.push(token);
        lines.push(ui);
        lines.push(String::new());
        lines.push("Press Enter to save and start the proxy.".to_owned());
        assert(text::views(lines@) =~= confirm_page(self@));
        lines
    }

    /// The lines of the page that is shown.
    pub fn lines(&self, os: Os) -> (lines: Vec<String>)
        requires
            self@.wf(),
        ensures
            text::views(lines@) == page(self@, os),
    {
        match self.step {
            Step::Welcome => welcome_lines(),
            Step::Browser => self.browser_lines(),
            Step::Server => self.server_lines(),
            Step::Options => self.option_lines(os),
            Step::Confirm => self.confirm_lines(),
        }
    }
}

/// The page of the first step.
fn welcome_lines() -> (lines: Vec<String>)
    ensures
        text::views(lines@) == welcome_page(),
{
    let mut lines: Vec<String> = Vec::new();
    lines.push("Welcome! Configure the proxy before first run.".to_owned());
    lines.push(String::new());
    lines.push("You will set:".to_owned());
    lines.push("  • Chromium browser (auto-detect, Playwright, or custom path)".to_owned());
    lines.push("  • HTTP listen address and CDP port".to_owned());
    lines.push("  • Token capture and UI options".to_owned());
    lines.push(String::new());
    lines.push("Press Enter to continue.".to_owned());
    assert(text::views(lines@) =~= welcome_page());
    lines
}

// ---------------------------------------------------------------------------------------------
// Laws
// ---------------------------------------------------------------------------------------------

/// Once the wizard was left, no key takes that back, and the settings are not saved.
pub proof fn law_cancelling_sticks(s: OnboardView, key: Key, ctrl: bool)
    requires
        s.cancelled,
    ensures
        after_key(s, key, ctrl).cancelled,
        ending(after_key(s, key, ctrl), confirms(s, key)) == Some(false),
{
}

/// Escape and `q` leave the wizard at every step, while no field is typed into: it ends, and the
/// settings are not saved.
pub proof fn law_leaving_ends_the_wizard(s: OnboardView, key: Key, ctrl: bool)
    requires
        s.editing is None,
        key == Key::Esc || key == Key::Char('q'),
    ensures
        ending(after_key(s, key, ctrl), confirms(s, key)) == Some(false),
{
}

/// The choices stay among those there are, whatever key is pressed.
pub proof fn law_choices_stay_in_range(s: OnboardView, key: Key, ctrl: bool)
    requires
        s.wf(),
    ensures
        after_key(s, key, ctrl).wf(),
{
}

/// A field that is left with Enter is not empty.
pub proof fn law_fields_are_left_filled(s: OnboardView, ctrl: bool)
    requires
        s.editing is Some,
    ensures
        s.editing == Some(EditField::Host) ==> after_key(
            s,
            Key::Enter,
            ctrl,
        ).config.server.host.len() > 0,
        s.editing == Some(EditField::Port) ==> after_key(s, Key::Enter, ctrl).config.server.port
            != 0,
        s.editing == Some(EditField::CdpPort) ==> after_key(
            s,
            Key::Enter,
            ctrl,
        ).config.edge.cdp_port != 0,
{
    reveal_strlit("127.0.0.1");
}

/// An option that is switched over twice is as it was.
pub proof fn law_toggling_twice_changes_nothing(c: config::ConfigView, option: int)
    ensures
        toggled(toggled(c, option), option) == c,
{
}

/// Backspace takes back the digit that was typed, where ten times the port is a port.
pub proof fn law_backspace_takes_back_a_digit(port: u16, digit: int)
    requires
        0 <= digit <= 9,
        port * 10 <= u16::MAX,
    ensures
        with_digit(port, digit) as int / 10 == port,
{
}

/// The wizard goes page by page: Enter leads from the welcome to the browsers and, unless a path
/// of one's own is to be typed, to the addresses; Tab leads on to the options and to the
/// confirmation, where Enter ends it and has the settings saved. None of this changes a setting.
pub proof fn law_wizard_goes_page_by_page(s: OnboardView, ctrl: bool)
    requires
        s.editing is None,
        !s.cancelled,
    ensures
        s.step is Welcome ==> after_key(s, Key::Enter, ctrl) == (OnboardView {
            step: Step::Browser,
            ..s
        }),
        s.step is Browser && s.browser_choice != s.browsers.len() + 1 ==> after_key(
            s,
            Key::Enter,
            ctrl,
        ) == (OnboardView { step: Step::Server, ..s }),
        s.step is Browser && s.browser_choice == s.browsers.len() + 1 ==> after_key(
            s,
            Key::Enter,
            ctrl,
        ) == (OnboardView { editing: Some(EditField::CustomBrowserPath), ..s }),
        s.step is Server ==> after_key(s, Key::Tab, ctrl) == (OnboardView {
            step: Step::Options,
            option_idx: 0,
            ..s
        }),
        s.step is Options ==> after_key(s, Key::Tab, ctrl) == (OnboardView {
            step: Step::Confirm,
            ..s
        }),
        s.step is Confirm ==> after_key(s, Key::Enter, ctrl) == s && ending(
            s,
            confirms(s, Key::Enter),
        ) == Some(true),
        !(s.step is Confirm) ==> ending(
            after_key(s, Key::Enter, ctrl),
            confirms(s, Key::Enter),
        ) is None,
{
}

/// What is typed into a text is added behind it, and backspace takes it back; no other setting
/// changes.
pub proof fn law_typed_text_is_added(s: OnboardView, c: char)
    ensures
        s.editing == Some(EditField::Host) ==> {
            let t = after_key(s, Key::Char(c), false);
            &&& t == with_config(
                s,
                config::ConfigView {
                    server: config::ServerView {
                        host: s.config.server.host.push(c),
                        port: s.config.server.port,
                    },
                    ..s.config
                },
            )
            &&& after_key(t, Key::Backspace, false) == s
        },
        s.editing == Some(EditField::CustomBrowserPath) ==> {
            let t = after_key(s, Key::Char(c), false);
            &&& t == (OnboardView { custom_browser_path: s.custom_browser_path.push(c), ..s })
            &&& after_key(t, Key::Backspace, false) == s
        },
        s.editing is Some ==> after_key(s, Key::Char(c), true) == s,
{
    assert(s.config.server.host.push(c).drop_last() =~= s.config.server.host);
    assert(s.custom_browser_path.push(c).drop_last() =~= s.custom_browser_path);
}

/// A digit that is typed into a port stands behind its digits, up to the highest port; other
/// characters are not taken, and no other setting changes.
pub proof fn law_typed_digits_make_ports(s: OnboardView, c: char)
    ensures
        s.editing == Some(EditField::Port) ==> {
            let t = after_key(s, Key::Char(c), false);
            &&& !('0' <= c <= '9') ==> t == s
            &&& '0' <= c <= '9' && 10 * s.config.server.port + (c as int - '0' as int) <= 65535
                ==> t.config.server.port == 10 * s.config.server.port + (c as int - '0' as int)
            &&& '0' <= c <= '9' && 10 * s.config.server.port + (c as int - '0' as int) > 65535
                ==> t.config.server.port == 65535
            &&& t.config.server.host == s.config.server.host
            &&& t.config.edge == s.config.edge
            &&& t.config.token == s.config.token
            &&& t.editing == s.editing
        },
        s.editing == Some(EditField::CdpPort) ==> {
            let t = after_key(s, Key::Char(c), false);
            &&& !('0' <= c <= '9') ==> t == s
            &&& '0' <= c <= '9' && 10 * s.config.edge.cdp_port + (c as int - '0' as int) <= 65535
                ==> t.config.edge.cdp_port == 10 * s.config.edge.cdp_port + (c as int - '0' as int)
            &&& '0' <= c <= '9' && 10 * s.config.edge.cdp_port + (c as int - '0' as int) > 65535
                ==> t.config.edge.cdp_port == 65535
            &&& t.config.server == s.config.server
            &&& t.config.token == s.config.token
            &&& t.editing == s.editing
        },
{
}

/// A field that is left keeps what was typed into it; only an empty host and a port of zero become
/// the default.
pub proof fn law_fields_keep_what_was_typed(s: OnboardView, ctrl: bool)
    requires
        s.editing is Some,
    ensures
        after_key(s, Key::Esc, ctrl) == (OnboardView { editing: None, ..s }),
        after_key(s, Key::Enter, ctrl).editing is None,
        after_key(s, Key::Enter, ctrl).custom_browser_path == s.custom_browser_path,
        s.config.server.host.len() > 0 && s.config.server.port > 0 && s.config.edge.cdp_port > 0
            ==> after_key(s, Key::Enter, ctrl).config == s.config,
        s.editing == Some(EditField::Host) && s.config.server.host.len() == 0 ==> after_key(
            s,
            Key::Enter,
            ctrl,
        ).config.server.host == "127.0.0.1"@,
        s.editing == Some(EditField::Port) && s.config.server.port == 0 ==> after_key(
            s,
            Key::Enter,
            ctrl,
        ).config.server.port == 8000,
        s.editing == Some(EditField::CdpPort) && s.config.edge.cdp_port == 0 ==> after_key(
            s,
            Key::Enter,
            ctrl,
        ).config.edge.cdp_port == 9222,
{
}

/// An option that is switched over changes its own setting and no other.
pub proof fn law_options_switch_their_settings(s: OnboardView, ctrl: bool)
    requires
        s.editing is None,
        s.step is Options,
        0 <= s.option_idx <= 4,
    ensures
        ({
            let t = after_key(s, Key::Enter, ctrl);
            &&& t.config.edge.launch_on_start == (s.config.edge.launch_on_start != (s.option_idx
                == 0))
            &&& t.config.token.auto_refresh == (s.config.token.auto_refresh != (s.option_idx == 1))
            &&& t.config.token.capture_on_start == (s.config.token.capture_on_start != (
            s.option_idx == 2))
            &&& t.config.ui.tui == (s.config.ui.tui != (s.option_idx == 3))
            &&& t.config.ui.tray == (s.config.ui.tray != (s.option_idx == 4))
            &&& t.config.server == s.config.server
            &&& t.config.edge.cdp_port == s.config.edge.cdp_port
            &&& t.config.edge.executable == s.config.edge.executable
            &&& t.config.token.access_token == s.config.token.access_token
            &&& t.config.token.model_alias == s.config.token.model_alias
            &&& t.option_idx == s.option_idx
            &&& after_key(s, Key::Char(' '), ctrl) == t
        }),
{
}

/// The choice of a browser moves by one with each key, and stops at both ends of the list.
pub proof fn law_choices_move_by_one(s: OnboardView, ctrl: bool)
    requires
        s.wf(),
        s.editing is None,
        s.step is Browser,
    ensures
        after_key(s, Key::Down, ctrl) == (OnboardView {
            browser_choice: if s.browser_choice < s.browsers.len() + 2 {
                s.browser_choice + 1
            } else {
                s.browser_choice
            },
            ..s
        }),
        after_key(s, Key::Up, ctrl) == (OnboardView {
            browser_choice: if s.browser_choice > 0 {
                s.browser_choice - 1
            } else {
                0
            },
            ..s
        }),
        after_key(s, Key::Char('j'), ctrl) == after_key(s, Key::Down, ctrl),
        after_key(s, Key::Char('k'), ctrl) == after_key(s, Key::Up, ctrl),
{
}

/// The settings that are saved have the browser that was chosen: none for any that is found, the
/// path of the one that was chosen from the list, the path that was typed without white space
/// around it, or the one that was downloaded. All other settings stay.
pub proof fn law_chosen_browser_is_saved(s: OnboardView, installed: Option<Seq<char>>, i: int)
    requires
        s.wf(),
    ensures
        s.browser_choice == 0 ==> chosen_config(s, installed).edge.executable is None,
        0 <= i < s.browsers.len() && s.browser_choice == i + 1 ==> chosen_config(
            s,
            installed,
        ).edge.executable == Some(s.browsers[i].path),
        s.browser_choice == s.browsers.len() + 1 && text::trimmed(s.custom_browser_path).len() > 0
            ==> chosen_config(s, installed).edge.executable == Some(
            text::trimmed(s.custom_browser_path),
        ),
        s.browser_choice == s.browsers.len() + 1 && text::trimmed(s.custom_browser_path).len() == 0
            ==> chosen_config(s, installed).edge.executable is None,
        s.browser_choice == s.browsers.len() + 2 ==> chosen_config(s, installed).edge.executable
            == installed,
        chosen_config(s, installed).server == s.config.server,
        chosen_config(s, installed).token == s.config.token,
        chosen_config(s, installed).logging == s.config.logging,
        chosen_config(s, installed).ui == s.config.ui,
        chosen_config(s, installed).edge.cdp_port == s.config.edge.cdp_port,
        chosen_config(s, installed).edge.launch_on_start == s.config.edge.launch_on_start,
        chosen_config(s, installed).edge.profile_dir == s.config.edge.profile_dir,
{
}

/// The wizard begins with the settings there are, but for the tray on macOS, and with the
/// configured browser chosen: that of the list where it is there, and else as a path of one's own.
pub proof fn law_wizard_begins_with_the_settings(
    c: config::ConfigView,
    found: Seq<browsers::BrowserView>,
    os: Os,
    path: Seq<char>,
    at: int,
)
    ensures
        beginning(c, found, os).config.server == c.server,
        beginning(c, found, os).config.token == c.token,
        beginning(c, found, os).config.edge == c.edge,
        beginning(c, found, os).config.logging == c.logging,
        beginning(c, found, os).config.ui.tui == c.ui.tui,
        beginning(c, found, os).config.ui.tray == (c.ui.tray && !(os is Macos)),
        beginning(c, found, os).browsers == found,
        c.edge.executable is None ==> beginning(c, found, os).browser_choice == 0,
        c.edge.executable == Some(path) && 0 <= at < found.len() && platform::same_place(
            os,
            found[at].path,
            path,
        ) && (forall|i: int|
            0 <= i < at ==> !platform::same_place(os, (#[trigger] found[i]).path, path))
            ==> beginning(c, found, os).browser_choice == at + 1,
        c.edge.executable == Some(path) && (forall|i: int|
            0 <= i < found.len() ==> !platform::same_place(os, (#[trigger] found[i]).path, path))
            ==> beginning(c, found, os).browser_choice == found.len() + 1 && beginning(
            c,
            found,
            os,
        ).custom_browser_path == path,
{
    if 0 <= at < found.len() && platform::same_place(os, found[at].path, path) && (forall|i: int|
        0 <= i < at ==> !platform::same_place(os, (#[trigger] found[i]).path, path)) {
        lemma_choice_of(os, found, path, at);
    }
    if forall|i: int|
        0 <= i < found.len() ==> !platform::same_place(os, (#[trigger] found[i]).path, path) {
        lemma_choice_of(os, found, path, found.len() as int);
    }
}

proof fn lemma_choice_of(os: Os, found: Seq<browsers::BrowserView>, path: Seq<char>, at: int)
    requires
        0 <= at <= found.len(),
        at < found.len() ==> platform::same_place(os, found[at].path, path),
        forall|i: int|
            0 <= i < at ==> !platform::same_place(os, (#[trigger] found[i]).path, path),
    ensures
        choice_of(os, found, path) == if at < found.len() {
            Some(at)
        } else {
            None
        },
    decreases found.len(),
{
    if found.len() > 0 {
        let rest = found.drop_last();
        let to = if at < found.len() {
            at
        } else {
            at - 1
        };
        assert forall|i: int| 0 <= i < to implies !platform::same_place(
            os,
            (#[trigger] rest[i]).path,
            path,
        ) by {
            assert(rest[i] == found[i]);
        }
        if at == found.len() {
            assert(!platform::same_place(os, found[found.len() - 1].path, path));
        }
        lemma_choice_of(os, rest, path, to);
    }
}

/// The pages show what there is to choose: each browser with its path, and the settings as they
/// are; the mark stands at what is chosen alone.
pub proof fn law_pages_show_the_choices(s: OnboardView, i: int)
    requires
        s.wf(),
        0 <= i < s.browsers.len(),
    ensures
        browser_page(s).len() == s.browsers.len() + 3,
        browser_page(s)[i + 1] == (if s.browser_choice == i + 1 {
            "▸ "@
        } else {
            "  "@
        }) + s.browsers[i].label + " — "@ + s.browsers[i].path,
        server_page(s).len() == 3,
        text::occurs_in(server_page(s)[0], s.config.server.host),
        text::occurs_in(server_page(s)[1], text::decimal(s.config.server.port as int)),
        text::occurs_in(server_page(s)[2], text::decimal(s.config.edge.cdp_port as int)),
        text::occurs_in(confirm_page(s)[3], config::address_of(s.config)),
        text::finishes_with(confirm_page(s)[2], choice_name(s)),
        text::finishes_with(confirm_page(s)[4], text::decimal(s.config.edge.cdp_port as int)),
{
    lemma_field_value(s.option_idx == 0, "HTTP host"@, s.config.server.host, s.editing == Some(
        EditField::Host,
    ));
    lemma_field_value(
        s.option_idx == 1,
        "HTTP port"@,
        text::decimal(s.config.server.port as int),
        s.editing == Some(EditField::Port),
    );
    lemma_field_value(
        s.option_idx == 2,
        "CDP port"@,
        text::decimal(s.config.edge.cdp_port as int),
        s.editing == Some(EditField::CdpPort),
    );
    let listen = "  Listen:  http://"@;
    let address = config::address_of(s.config);
    let n = listen.len() as int;
    assert(confirm_page(s)[3].subrange(n, n + address.len()) =~= address);
    assert(text::occurs_at(confirm_page(s)[3], address, n));
    let name = choice_name(s);
    assert(confirm_page(s)[2].skip(confirm_page(s)[2].len() - name.len()) =~= name);
    let port = text::decimal(s.config.edge.cdp_port as int);
    assert(confirm_page(s)[4].skip(confirm_page(s)[4].len() - port.len()) =~= port);
}

proof fn lemma_field_value(chosen: bool, label: Seq<char>, value: Seq<char>, typed: bool)
    ensures
        text::occurs_in(field_line(chosen, label, value, typed), value),
{
    let line = field_line(chosen, label, value, typed);
    let n = (marker(chosen) + label + ": "@).len() as int;
    assert(line.subrange(n, n + value.len()) =~= value);
    assert(text::occurs_at(line, value, n));
}

} // verus!
