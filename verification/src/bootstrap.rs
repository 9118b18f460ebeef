//! The first run: which configuration file is used, and what is written where there is none.
use vstd::prelude::*;
use vstd::string::*;

use crate::config::{self, discover_config_path, AppConfig, ServeOverrides};
use crate::platform::Os;
use crate::text;

verus! {

/// What was found or made at the start.
#[derive(Debug, Clone)]
pub struct BootstrapReport {
    pub config_path: Option<String>,
    pub config_created: bool,
    pub env_example_created: bool,
}

/// What was found or made at the start.
pub struct ReportView {
    pub config_path: Option<Seq<char>>,
    pub config_created: bool,
    pub env_example_created: bool,
}

impl View for BootstrapReport {
    type V = ReportView;

    open spec fn view(&self) -> ReportView {
        ReportView {
            config_path: text::string_view(self.config_path),
            config_created: self.config_created,
            env_example_created: self.env_example_created,
        }
    }
}

impl Default for BootstrapReport {
    fn default() -> (report: Self)
        ensures
            report@ == (ReportView {
                config_path: None,
                config_created: false,
                env_example_created: false,
            }),
    {
        BootstrapReport { config_path: None, config_created: false, env_example_created: false }
    }
}

/// What the start finds, and what it has to make: a configuration file is made at the user's
/// place where no place holds one, and the example of the environment file where nothing was
/// found and there is none.
pub open spec fn start_report(
    flag: Option<Seq<char>>,
    env: Option<Seq<char>>,
    local_exists: bool,
    config_dir: Option<Seq<char>>,
    user_exists: bool,
    env_example_exists: bool,
    os: Os,
) -> ReportView {
    let found = flag is Some || env is Some || local_exists || (config_dir is Some && user_exists);
    ReportView {
        config_path: config::config_path(flag, env, local_exists, config_dir, os),
        config_created: !found && config_dir is Some,
        env_example_created: !found && !env_example_exists,
    }
}

/// What the start finds, and what it has to make, by the flag, the value of `M365_CONFIG`,
/// whether `config.toml` exists in the working directory, the user's configuration directory and
/// whether the file exists there, and whether `.env.example` exists.
pub fn bootstrap(
    overrides: &ServeOverrides,
    env: Option<&str>,
    local_exists: bool,
    config_dir: Option<&str>,
    user_exists: bool,
    env_example_exists: bool,
    os: Os,
) -> (report: BootstrapReport)
    ensures
        report@ == start_report(
            text::string_view(overrides.config_path),
            text::text_view(env),
            local_exists,
            text::text_view(config_dir),
            user_exists,
            env_example_exists,
            os,
        ),
{
    let flag = match &overrides.config_path {
        Some(path) => Some(path.as_str()),
        None => None,
    };
    let mut report = BootstrapReport::default();
    report.config_path = discover_config_path(flag, env, local_exists, config_dir, os);
    if flag.is_some() || env.is_some() || local_exists {
        return report;
    }
    if config_dir.is_some() {
        if user_exists {
            return report;
        }
        report.config_created = true;
    }
    if !env_example_exists {
        report.env_example_created = true;
    }
    report
}

/// What is said at the start: where a configuration file was made, and how a token is got where
/// there is none.
pub open spec fn welcome(
    report: ReportView,
    c: config::ConfigView,
    token_missing: bool,
) -> Seq<char> {
    let made = if report.config_created {
        "\nFirst run: wrote config to "@ + match report.config_path {
            Some(path) => path,
            None => Seq::empty(),
        } + "\nEdit it or use M365_* env vars. See README.\n\n"@
    } else {
        Seq::empty()
    };
    if token_missing && c.token.capture_on_start {
        made + "No valid token yet. The proxy will:\n"@
            + "  1. Open Microsoft Edge with M365 Copilot\n"@ + "  2. Wait for you to sign in\n"@
            + "  3. Capture the token when you click the message box and type one character\n"@
            + "\nManual fallback: copilot-openai-proxy set-token\n\n"@
    } else {
        made
    }
}

/// What is said at the start; `token_missing` says whether a token has to be got.
pub fn print_welcome(report: &BootstrapReport, config: &AppConfig, token_missing: bool) -> (message:
    String)
    ensures
        message@ == welcome(report@, config@, token_missing),
{
    let mut message = String::new();
    if report.config_created {
        message = "\nFirst run: wrote config to ".to_owned();
        match &report.config_path {
            Some(path) => {
                message.append(path.as_str());
            },
            None => {
                assert(message@ + Seq::<char>::empty() =~= message@);
            },
        }
        message.append("\nEdit it or use M365_* env vars. See README.\n\n");
    }
    if token_missing && config.token.capture_on_start {
        message.append("No valid token yet. The proxy will:\n");
        message.append("  1. Open Microsoft Edge with M365 Copilot\n");
        message.append("  2. Wait for you to sign in\n");
        message.append(
            "  3. Capture the token when you click the message box and type one character\n",
        );
        message.append("\nManual fallback: copilot-openai-proxy set-token\n\n");
    }
    message
}

/// The file that the start finds or makes is the one that the settings are loaded from.
pub proof fn law_start_prepares_what_is_loaded(
    flag: Option<Seq<char>>,
    env: Option<Seq<char>>,
    local_exists: bool,
    config_dir: Option<Seq<char>>,
    user_exists: bool,
    env_example_exists: bool,
    os: Os,
)
    ensures
        start_report(
            flag,
            env,
            local_exists,
            config_dir,
            user_exists,
            env_example_exists,
            os,
        ).config_path == config::config_path(flag, env, local_exists, config_dir, os),
        start_report(
            flag,
            env,
            local_exists,
            config_dir,
            user_exists,
            env_example_exists,
            os,
        ).config_created ==> (config_dir matches Some(dir) && config::config_path(
            flag,
            env,
            local_exists,
            config_dir,
            os,
        ) == Some(config::user_config(dir, os))),
{
}

/// The start makes a configuration file exactly where no place holds one and the user has a
/// configuration directory, and an example of the environment file exactly where no place holds a
/// configuration file and there is no example yet.
pub proof fn law_start_makes_what_is_missing(
    flag: Option<Seq<char>>,
    env: Option<Seq<char>>,
    local_exists: bool,
    config_dir: Option<Seq<char>>,
    user_exists: bool,
    env_example_exists: bool,
    os: Os,
)
    ensures
        ({
            let report = start_report(
                flag,
                env,
                local_exists,
                config_dir,
                user_exists,
                env_example_exists,
                os,
            );
            &&& report.config_created <==> flag is None && env is None && !local_exists
                && config_dir is Some && !user_exists
            &&& report.env_example_created <==> flag is None && env is None && !local_exists && !(
            config_dir is Some && user_exists) && !env_example_exists
        }),
{
}

/// The welcome names the file that was made, and tells how a token is got exactly where one is
/// missing and is to be captured; where neither holds, nothing is said.
pub proof fn law_welcome_tells_what_was_made(
    report: ReportView,
    c: config::ConfigView,
    path: Seq<char>,
)
    requires
        report.config_path == Some(path),
    ensures
        report.config_created ==> text::occurs_in(welcome(report, c, false), path),
        report.config_created ==> text::begins_with(
            welcome(report, c, true),
            welcome(report, c, false),
        ),
        !report.config_created ==> welcome(report, c, false).len() == 0,
        c.token.capture_on_start ==> text::occurs_in(
            welcome(report, c, true),
            "No valid token yet. The proxy will:\n"@,
        ),
        !c.token.capture_on_start ==> welcome(report, c, true) == welcome(report, c, false),
{
    let first = "\nFirst run: wrote config to "@;
    let end = "\nEdit it or use M365_* env vars. See README.\n\n"@;
    let made = welcome(report, c, false);
    let all = welcome(report, c, true);
    if report.config_created {
        assert(made =~= first + path + end);
        let n = first.len() as int;
        assert(made.subrange(n, n + path.len()) =~= path);
        assert(text::occurs_at(made, path, n));
    }
    assert(all.take(made.len() as int) =~= made);
    if c.token.capture_on_start {
        let word = "No valid token yet. The proxy will:\n"@;
        let n = made.len() as int;
        assert(all.subrange(n, n + word.len()) =~= word);
        assert(text::occurs_at(all, word, n));
    }
}

} // verus!
