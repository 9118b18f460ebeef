//! Checks before serving, and what they say.
use vstd::prelude::*;
use vstd::string::*;

use crate::cdp::{self, find_m365_page};
use crate::config::{self, AppConfig};
use crate::json::{self, Json};
use crate::text::{self, signed_text, unsigned_text};
use crate::token_store::{
    self, needs_substrate_token_at, seconds_remaining_at,
};

verus! {

/// What a check came to.
#[derive(Debug, Clone)]
pub struct CheckResult {
    pub name: String,
    pub ok: bool,
    pub detail: String,
}

/// What a check came to.
pub struct CheckView {
    pub name: Seq<char>,
    pub ok: bool,
    pub detail: Seq<char>,
}

impl View for CheckResult {
    type V = CheckView;

    open spec fn view(&self) -> CheckView {
        CheckView { name: self.name@, ok: self.ok, detail: self.detail@ }
    }
}

/// The checks of a list.
pub open spec fn check_views(checks: Seq<CheckResult>) -> Seq<CheckView> {
    Seq::new(checks.len(), |i: int| checks[i]@)
}

/// What all checks came to.
pub struct DoctorReport {
    pub checks: Vec<CheckResult>,
}

/// All checks passed.
pub open spec fn all_passed(checks: Seq<CheckView>) -> bool {
    forall|i: int| 0 <= i < checks.len() ==> (#[trigger] checks[i]).ok
}

/// The line for a check.
pub open spec fn check_line(check: CheckView) -> Seq<char> {
    "  ["@ + if check.ok {
        "ok"@
    } else {
        "FAIL"@
    } + "] "@ + check.name + " — "@ + check.detail + "\n"@
}

/// The lines for checks.
pub open spec fn check_lines(checks: Seq<CheckView>) -> Seq<char>
    decreases checks.len(),
{
    if checks.len() == 0 {
        Seq::empty()
    } else {
        check_lines(checks.drop_last()) + check_line(checks.last())
    }
}

/// What is said of all checks.
pub open spec fn report_text(checks: Seq<CheckView>) -> Seq<char> {
    "m365-copilot-proxy doctor\n\n"@ + check_lines(checks) + "\n"@ + if all_passed(checks) {
        "All checks passed. Run: copilot-openai-proxy serve\n"@
    } else {
        "Fix the failed checks above, then run: copilot-openai-proxy serve\n"@
    }
}

impl DoctorReport {
    /// Whether all checks passed.
    pub fn all_ok(&self) -> (b: bool)
        ensures
            b == all_passed(check_views(self.checks@)),
    {
        for i in 0..self.checks.len()
            invariant
                forall|j: int| 0 <= j < i ==> (#[trigger] check_views(self.checks@)[j]).ok,
        {
            assert(check_views(self.checks@)[i as int] == self.checks@[i as int]@);
            if !self.checks[i].ok {
                assert(check_views(self.checks@).len() == self.checks@.len());
                return false;
            }
        }
        assert(check_views(self.checks@).len() == self.checks@.len());
        true
    }

    /// What is said of all checks.
    pub fn print(&self) -> (report: String)
        ensures
            report@ == report_text(check_views(self.checks@)),
    {
        let ghost all = check_views(self.checks@);
        let mut lines = String::new();
        assert(all.take(0) =~= Seq::empty());
        for i in 0..self.checks.len()
            invariant
                all == check_views(self.checks@),
                lines@ == check_lines(all.take(i as int)),
        {
            proof {
                assert(all.take(i + 1).drop_last() =~= all.take(i as int));
                assert(all.take(i + 1).last() == self.checks@[i as int]@);
            }
            let check = &self.checks[i];
            let mut line = "  [".to_owned();
            line.append(
                if check.ok {
                    "ok"
                } else {
                    "FAIL"
                },
            );
            line.append("] ");
            line.append(check.name.as_str());
            line.append(" — ");
            line.append(check.detail.as_str());
            line.append("\n");
            lines.append(line.as_str());
        }
        assert(all.take(all.len() as int) =~= all);
        assert(all.len() == self.checks@.len());
        let mut report = "m365-copilot-proxy doctor\n\n".to_owned();
        report.append(lines.as_str());
        report.append("\n");
        report.append(
            if self.all_ok() {
                "All checks passed. Run: copilot-openai-proxy serve\n"
            } else {
                "Fix the failed checks above, then run: copilot-openai-proxy serve\n"
            },
        );
        report
    }
}

// ---------------------------------------------------------------------------------------------
// The checks
// ---------------------------------------------------------------------------------------------

/// A place to listen at.
pub open spec fn place(host: Seq<char>, port: u16) -> Seq<char> {
    host + ":"@ + text::decimal(port as int)
}

/// What the debugging port answered.
pub enum CdpAnswer {
    /// No request could be made.
    NoClient(String),
    /// The request failed.
    Unreachable,
    /// An answer with an error's status, as it is written.
    Refused(String),
    /// An answer that could not be read.
    Unreadable,
    /// The tabs of the browser.
    Tabs(Vec<Json>),
}

/// The settings.
pub open spec fn config_check(c: config::ConfigView, profile_dir: Seq<char>) -> CheckView {
    CheckView {
        name: "Configuration"@,
        ok: true,
        detail: "listen "@ + config::address_of(c) + " · env "@ + c.token.env_file + " · profile "@
            + profile_dir,
    }
}

/// The browser.
pub open spec fn browser_check(path: Seq<char>, ok: bool) -> CheckView {
    CheckView {
        name: "Chromium browser"@,
        ok,
        detail: if ok {
            "found at "@ + path
        } else {
            "not found at "@ + path
                + " — install Edge/Chrome/Brave or set edge.executable in config"@
        },
    }
}

/// A port.
pub open spec fn port_check(host: Seq<char>, port: u16, label: Seq<char>, free: bool) -> CheckView {
    CheckView {
        name: label + " port"@,
        ok: free,
        detail: place(host, port) + if free {
            " is available"@
        } else {
            " is in use — free the port or change config"@
        },
    }
}

/// The token, as of `now`.
pub open spec fn token_check(token: Option<Seq<char>>, now: i64) -> CheckView {
    if token_store::token_needed_at(token, now) {
        CheckView {
            name: "Substrate token"@,
            ok: false,
            detail: "missing or expired — sign in via browser or run set-token"@,
        }
    } else {
        CheckView {
            name: "Substrate token"@,
            ok: true,
            detail: "valid · "@ + text::signed_decimal(
                token_store::remaining_at(token->0, now)->Ok_0 as int,
            ) + "s remaining"@,
        }
    }
}

/// The debugging port.
pub open spec fn cdp_check(cdp_port: u16, answer: CdpAnswer) -> CheckView {
    let (ok, detail) = match answer {
        CdpAnswer::NoClient(e) => (false, "HTTP client error: "@ + e@),
        CdpAnswer::Unreachable => (
            false,
            "not reachable on :"@ + text::decimal(cdp_port as int)
                + " — run serve (launches browser) or launch-edge"@,
        ),
        CdpAnswer::Refused(status) => (false, "CDP returned HTTP "@ + status@),
        CdpAnswer::Unreadable => (true, "CDP reachable"@),
        CdpAnswer::Tabs(tabs) => (
            true,
            if cdp::first_page(json::trees(tabs@)) is Some {
                "CDP reachable · M365 Copilot tab open"@
            } else {
                "CDP reachable · open https://m365.cloud.microsoft/chat in the debug browser"@
            },
        ),
    };
    CheckView { name: "Browser CDP"@, ok, detail }
}

/// A place to listen at.
fn place_text(host: &str, port: u16) -> (s: String)
    ensures
        s@ == place(host@, port),
{
    let mut s = host.to_owned();
    s.append(":");
    s.append(unsigned_text(port as u64).as_str());
    s
}

/// The settings.
fn check_config_paths(config: &AppConfig, profile_dir: &str) -> (check: CheckResult)
    ensures
        check@ == config_check(config@, profile_dir@),
{
    let mut detail = "listen ".to_owned();
    detail.append(config.listen_addr().as_str());
    detail.append(" · env ");
    detail.append(config.token.env_file.as_str());
    detail.append(" · profile ");
    detail.append(profile_dir);
    CheckResult { name: "Configuration".to_owned(), ok: true, detail }
}

/// The browser.
fn check_browser_installed(path: &str, ok: bool) -> (check: CheckResult)
    ensures
        check@ == browser_check(path@, ok),
{
    let mut detail = if ok {
        "found at ".to_owned()
    } else {
        "not found at ".to_owned()
    };
    detail.append(path);
    if !ok {
        detail.append(" — install Edge/Chrome/Brave or set edge.executable in config");
    }
    CheckResult { name: "Chromium browser".to_owned(), ok, detail }
}

/// A port.
fn check_port_available(host: &str, port: u16, label: &str, free: bool) -> (check: CheckResult)
    ensures
        check@ == port_check(host@, port, label@, free),
{
    let mut name = label.to_owned();
    name.append(" port");
    let mut detail = place_text(host, port);
    detail.append(
        if free {
            " is available"
        } else {
            " is in use — free the port or change config"
        },
    );
    CheckResult { name, ok: free, detail }
}

/// The token, as of `now`.
fn check_token(token: Option<&str>, now: i64) -> (check: CheckResult)
    ensures
        check@ == token_check(text::text_view(token), now),
{
    let name = "Substrate token".to_owned();
    if let Some(t) = token {
        if !needs_substrate_token_at(token, now) {
            if let Ok(left) = seconds_remaining_at(t, now) {
                let mut detail = "valid · ".to_owned();
                detail.append(signed_text(left).as_str());
                detail.append("s remaining");
                return CheckResult { name, ok: true, detail };
            }
        }
    }
    CheckResult {
        name,
        ok: false,
        detail: "missing or expired — sign in via browser or run set-token".to_owned(),
    }
}

/// The debugging port.
fn check_cdp_reachable(cdp_port: u16, answer: &CdpAnswer) -> (check: CheckResult)
    ensures
        check@ == cdp_check(cdp_port, *answer),
{
    let name = "Browser CDP".to_owned();
    match answer {
        CdpAnswer::NoClient(e) => {
            let mut detail = "HTTP client error: ".to_owned();
            detail.append(e.as_str());
            CheckResult { name, ok: false, detail }
        },
        CdpAnswer::Unreachable => {
            let mut detail = "not reachable on :".to_owned();
            detail.append(unsigned_text(cdp_port as u64).as_str());
            detail.append(" — run serve (launches browser) or launch-edge");
            CheckResult { name, ok: false, detail }
        },
        CdpAnswer::Refused(status) => {
            let mut detail = "CDP returned HTTP ".to_owned();
            detail.append(status.as_str());
            CheckResult { name, ok: false, detail }
        },
        CdpAnswer::Unreadable => CheckResult { name, ok: true, detail: "CDP reachable".to_owned() },
        CdpAnswer::Tabs(tabs) => {
            let detail = if find_m365_page(tabs.as_slice()).is_some() {
                "CDP reachable · M365 Copilot tab open".to_owned()
            } else {
                "CDP reachable · open https://m365.cloud.microsoft/chat in the debug browser".to_owned()
            };
            CheckResult { name, ok: true, detail }
        },
    }
}

/// Where the browser lists its tabs, for the check.
pub fn browser_tabs_address(port: u16) -> (address: String)
    ensures
        address@ == "http://127.0.0.1:"@ + text::decimal(port as int) + "/json"@,
{
    let mut address = "http://127.0.0.1:".to_owned();
    address.append(unsigned_text(port as u64).as_str());
    address.append("/json");
    address
}

/// What the checks look at.
pub struct Findings {
    pub profile_dir: String,
    pub browser: String,
    pub browser_usable: bool,
    pub server_port_free: bool,
    pub cdp_port_free: bool,
    pub token: Option<String>,
    pub now: i64,
    pub cdp: CdpAnswer,
}

/// All checks, in order.
pub open spec fn all_checks(c: config::ConfigView, f: Findings) -> Seq<CheckView> {
    seq![
        config_check(c, f.profile_dir@),
        browser_check(f.browser@, f.browser_usable),
        port_check(c.server.host, c.server.port, "HTTP server"@, f.server_port_free),
        port_check("127.0.0.1"@, c.edge.cdp_port, "Browser CDP"@, f.cdp_port_free),
        token_check(text::string_view(f.token), f.now),
        cdp_check(c.edge.cdp_port, f.cdp),
    ]
}

/// What the checks come to: the settings, the browser, both ports, the token and the debugging
/// port.
pub fn run_doctor(config: &AppConfig, findings: &Findings) -> (report: DoctorReport)
    ensures
        check_views(report.checks@) == all_checks(config@, *findings),
{
    let token = match &findings.token {
        Some(token) => Some(token.as_str()),
        None => None,
    };
    let mut checks: Vec<CheckResult> = Vec::new();
    checks.push(check_config_paths(config, findings.profile_dir.as_str()));
    checks.push(check_browser_installed(findings.browser.as_str(), findings.browser_usable));
    checks.push(
        check_port_available(
            config.server.host.as_str(),
            config.server.port,
            "HTTP server",
            findings.server_port_free,
        ),
    );
    checks.push(
        check_port_available(
            "127.0.0.1",
            config.edge.cdp_port,
            "Browser CDP",
            findings.cdp_port_free,
        ),
    );
    checks.push(check_token(token, findings.now));
    checks.push(check_cdp_reachable(config.edge.cdp_port, &findings.cdp));
    assert(check_views(checks@) =~= all_checks(config@, *findings));
    DoctorReport { checks }
}

/// What is said where the server could not listen: `in_use` says whether another process does.
pub fn format_bind_error(host: &str, port: u16, in_use: bool, err: &str) -> (message: String)
    ensures
        message@ == if in_use {
            "port "@ + place(host@, port)
                + " is already in use — stop the other process or set M365_PORT"@
        } else {
            "failed to bind "@ + place(host@, port) + ": "@ + err@
        },
{
    let mut message = if in_use {
        "port ".to_owned()
    } else {
        "failed to bind ".to_owned()
    };
    message.append(place_text(host, port).as_str());
    if in_use {
        message.append(" is already in use — stop the other process or set M365_PORT");
    } else {
        message.append(": ");
        message.append(err);
    }
    message
}

/// The token's check passes exactly when no token has to be got.
pub proof fn law_token_check_passes_iff_not_needed(token: Option<Seq<char>>, now: i64)
    ensures
        token_check(token, now).ok == !token_store::token_needed_at(token, now),
{
}

/// All checks pass exactly where the browser can be started, both ports are free, no token has to
/// be got, and the debugging port answers without an error.
pub proof fn law_checks_pass_iff_all_is_well(c: config::ConfigView, f: Findings)
    ensures
        all_checks(c, f).len() == 6,
        all_passed(all_checks(c, f)) <==> {
            &&& f.browser_usable
            &&& f.server_port_free
            &&& f.cdp_port_free
            &&& !token_store::token_needed_at(text::string_view(f.token), f.now)
            &&& f.cdp is Unreadable || f.cdp is Tabs
        },
{
    let checks = all_checks(c, f);
    assert(checks[0].ok);
    assert(checks[1].ok == f.browser_usable);
    assert(checks[2].ok == f.server_port_free);
    assert(checks[3].ok == f.cdp_port_free);
    assert(checks[4].ok == !token_store::token_needed_at(text::string_view(f.token), f.now));
    assert(checks[5].ok == (f.cdp is Unreadable || f.cdp is Tabs));
    if checks[1].ok && checks[2].ok && checks[3].ok && checks[4].ok && checks[5].ok {
        assert forall|i: int| 0 <= i < checks.len() implies (#[trigger] checks[i]).ok by {
            assert(i == 0 || i == 1 || i == 2 || i == 3 || i == 4 || i == 5);
        }
    }
}

/// The report has a line for each check, in order, and ends with whether all passed.
pub proof fn law_report_has_every_check(checks: Seq<CheckView>, check: CheckView)
    ensures
        check_lines(Seq::empty()) == Seq::<char>::empty(),
        check_lines(checks.push(check)) == check_lines(checks) + "  ["@ + (if check.ok {
            "ok"@
        } else {
            "FAIL"@
        }) + "] "@ + check.name + " — "@ + check.detail + "\n"@,
        report_text(checks) == "m365-copilot-proxy doctor\n\n"@ + check_lines(checks) + "\n"@ + (if (
        forall|i: int| 0 <= i < checks.len() ==> (#[trigger] checks[i]).ok) {
            "All checks passed. Run: copilot-openai-proxy serve\n"@
        } else {
            "Fix the failed checks above, then run: copilot-openai-proxy serve\n"@
        }),
{
    assert(checks.push(check).drop_last() =~= checks);
    assert(check_lines(checks.push(check)) =~= check_lines(checks) + "  ["@ + (if check.ok {
        "ok"@
    } else {
        "FAIL"@
    }) + "] "@ + check.name + " — "@ + check.detail + "\n"@);
}

/// The checks tell where: the address of the server, its files, the browser's path, each port
/// with its host, and for how long a token lasts.
pub proof fn law_checks_tell_where(c: config::ConfigView, f: Findings)
    ensures
        text::begins_with(all_checks(c, f)[0].detail, "listen "@ + config::address_of(c)),
        text::occurs_in(all_checks(c, f)[0].detail, c.token.env_file),
        text::finishes_with(all_checks(c, f)[0].detail, f.profile_dir@),
        text::occurs_in(all_checks(c, f)[1].detail, f.browser@),
        text::begins_with(
            all_checks(c, f)[2].detail,
            c.server.host + ":"@ + text::decimal(c.server.port as int),
        ),
        text::begins_with(
            all_checks(c, f)[3].detail,
            "127.0.0.1"@ + ":"@ + text::decimal(c.edge.cdp_port as int),
        ),
        f.token matches Some(token) ==> !token_store::token_needed_at(Some(token@), f.now) ==> (
        token_store::remaining_at(token@, f.now) matches Ok(left) && all_checks(c, f)[4].detail
            == "valid · "@ + text::signed_decimal(left as int) + "s remaining"@),
{
    let checks = all_checks(c, f);
    let listen = "listen "@ + config::address_of(c);
    let env = c.token.env_file;
    assert(checks[0].detail.take(listen.len() as int) =~= listen);
    let n = (listen + " · env "@).len() as int;
    assert(checks[0].detail.subrange(n, n + env.len()) =~= env);
    assert(text::occurs_at(checks[0].detail, env, n));
    assert(checks[0].detail.skip(checks[0].detail.len() - f.profile_dir@.len())
        =~= f.profile_dir@);
    let k = if f.browser_usable {
        "found at "@.len() as int
    } else {
        "not found at "@.len() as int
    };
    assert(checks[1].detail.subrange(k, k + f.browser@.len()) =~= f.browser@);
    assert(text::occurs_at(checks[1].detail, f.browser@, k));
    let a = place(c.server.host, c.server.port);
    assert(checks[2].detail.take(a.len() as int) =~= a);
    let b = place("127.0.0.1"@, c.edge.cdp_port);
    assert(checks[3].detail.take(b.len() as int) =~= b);
}

} // verus!
