//! Getting a token from a browser over its debugging port: which page to ask, what to send, and
//! what the answers mean.
use vstd::prelude::*;
use vstd::string::*;

use crate::json::{self, parse_json, print_json, Json, JsonTree};
use crate::runtime_status::ServicePhase;
use crate::text::{self, contains_text, same_text, starts_with, trim_text, unsigned_text};
use crate::token_store::{
    self, is_substrate_token, needs_substrate_token_by, read_env_token, unix_now, write_token,
};

pub use crate::browsers::{
    browser_available, browser_executable, discover_chromium_browser,
    discover_chromium_browser_if_present, edge_available, edge_executable_path,
    edge_executable_path_for, launch_debug_browser, launch_debug_browser_on_port,
    launch_debug_edge, launch_debug_edge_on_port, list_detected_browsers, playwright_cache_dir,
    playwright_chromium_binary_in_dir, playwright_chromium_layout,
    playwright_chromium_relative_paths, BrowserLaunch, DetectedBrowser, Machine,
    PlaywrightChromiumLayout,
};

verus! {

/// The script that gathers tokens from the page's stores and its requests.
pub const CDP_JS: &'static str = r#"
(() => {
  const candidates = [];
  for (const store of [sessionStorage, localStorage]) {
    for (const key of ['LokiAuthToken', ...Object.keys(store).filter(k => k.startsWith('LokiAuthToken'))]) {
      const token = store.getItem(key);
      if (token && token.startsWith('eyJ')) candidates.push(token);
    }
  }
  for (const entry of performance.getEntriesByType('resource')) {
    if (!entry.name.includes('substrate.office.com') ||
        !entry.name.includes('access_token=')) continue;
    const match = entry.name.match(/[?&]access_token=([^&]+)/);
    if (match) candidates.push(decodeURIComponent(match[1]));
  }
  const stores = [sessionStorage, localStorage];
  for (const store of stores) {
    for (const k of Object.keys(store)) {
      if (!k.includes('accesstoken')) continue;
      try {
        const v = JSON.parse(store.getItem(k));
        if (v && v.secret && v.secret.startsWith('eyJ') &&
            ((v.target && v.target.includes('substrate')) || k.includes('substrate'))) {
          candidates.push(v.secret);
        }
      } catch {}
    }
  }
  return candidates;
})()
"#;

/// The script that gives the message box the focus.
pub const CDP_NUDGE_JS: &'static str = r#"
(() => {
  const input = document.querySelector('[aria-label="Message Copilot"], textarea, [contenteditable="true"], [role="textbox"]');
  if (!input) return false;
  input.focus();
  return true;
})()
"#;

/// Where the pages of M365 Copilot are.
pub const M365_ORIGIN: &'static str = "https://m365.cloud.microsoft/";

/// The expression for a token in the address of a connection.
pub const ADDRESS_TOKEN: &'static str = "[?&]access_token=([^&]+)";

/// The expression for a token in a pasted text.
pub const PASTED_TOKEN: &'static str = "access_token=([^&\\s]+)";

/// What is said where a pasted text holds no token.
pub const NO_TOKEN: &'static str = "could not find a valid token. Make sure you copied the full WebSocket URL.";

/// What is said where a pasted token is for another service.
pub const FOREIGN_TOKEN: &'static str = "token is not a substrate.office.com WebSocket token. Copy the full wss://substrate.office.com/... URL from the Network WebSocket request.";

// ---------------------------------------------------------------------------------------------
// Pages
// ---------------------------------------------------------------------------------------------

/// A tab that shows M365 Copilot.
pub open spec fn m365_page(tab: JsonTree) -> bool {
    &&& tab.text_member("type"@) == Some("page"@)
    &&& tab.text_member("url"@) matches Some(url) && text::begins_with(url, M365_ORIGIN@)
}

/// The first tab that shows M365 Copilot.
pub open spec fn first_page(tabs: Seq<JsonTree>) -> Option<JsonTree>
    decreases tabs.len(),
{
    if tabs.len() == 0 {
        None
    } else if m365_page(tabs[0]) {
        Some(tabs[0])
    } else {
        first_page(tabs.skip(1))
    }
}

/// The address of the debugger of the first tab that shows M365 Copilot.
pub open spec fn debugger_address(tabs: Seq<JsonTree>) -> Option<Seq<char>> {
    match first_page(tabs) {
        Some(tab) => tab.text_member("webSocketDebuggerUrl"@),
        None => None,
    }
}

/// Whether a tab shows M365 Copilot.
fn is_m365_page(tab: &Json) -> (b: bool)
    ensures
        b == m365_page(tab.tree()),
{
    let page = match tab.get_str("type") {
        Some(kind) => same_text(kind, "page"),
        None => false,
    };
    let here = match tab.get_str("url") {
        Some(url) => starts_with(url, M365_ORIGIN),
        None => false,
    };
    page && here
}

/// The first tab that shows M365 Copilot. Tools that merely mention it do not.
pub fn find_m365_page(tabs: &[Json]) -> (page: Option<&Json>)
    ensures
        match page {
            Some(tab) => first_page(json::trees(tabs@)) == Some(tab.tree()),
            None => first_page(json::trees(tabs@)) is None,
        },
{
    let ghost all = json::trees(tabs@);
    assert(all.skip(0) =~= all);
    for i in 0..tabs.len()
        invariant
            all == json::trees(tabs@),
            first_page(all) == first_page(all.skip(i as int)),
    {
        proof {
            assert(all.skip(i as int)[0] == tabs@[i as int].tree());
            assert(all.skip(i as int).skip(1) =~= all.skip(i + 1));
        }
        if is_m365_page(&tabs[i]) {
            return Some(&tabs[i]);
        }
    }
    assert(all.len() == tabs@.len());
    None
}

/// The address of the debugger of the first tab that shows M365 Copilot.
pub fn page_debugger(tabs: &[Json]) -> (address: Option<String>)
    ensures
        text::string_view(address) == debugger_address(json::trees(tabs@)),
{
    match find_m365_page(tabs) {
        Some(tab) => match tab.get_str("webSocketDebuggerUrl") {
            Some(address) => Some(address.to_owned()),
            None => None,
        },
        None => None,
    }
}

/// Where a browser lists its tabs.
pub fn tabs_address(port: u16) -> (address: String)
    ensures
        address@ == "http://localhost:"@ + text::decimal(port as int) + "/json"@,
{
    let mut address = "http://localhost:".to_owned();
    address.append(unsigned_text(port as u64).as_str());
    address.append("/json");
    address
}

// ---------------------------------------------------------------------------------------------
// Tokens
// ---------------------------------------------------------------------------------------------

/// Whether a token has to be got, as of the time of the call: what `needs_substrate_token_by`
/// says by what the clock reads then. Nothing is known of the clock, which may also fail; a
/// token is needed at every time where there is none, where it is no Substrate token, and where
/// it names no expiry.
pub fn needs_substrate_token(token: Option<&str>) -> (needed: bool)
    ensures
        exists|clock: Option<i64>|
            needed == #[trigger] token_store::token_needed_by(text::text_view(token), clock),
        token is None ==> needed,
        token matches Some(t) ==> !token_store::substrate_token(t@) ==> needed,
        token matches Some(t) ==> token_store::jwt_claims(t@) matches Ok(claims) ==>
            claims.signed_member("exp"@) is None ==> needed,
        !needed ==> exists|now: i64|
            !#[trigger] token_store::token_needed_at(text::text_view(token), now),
{
    let clock: Option<i64> = match unix_now() {
        Ok(now) => Some(now),
        Err(_) => None,
    };
    let needed = needs_substrate_token_by(token, clock);
    assert(needed == token_store::token_needed_by(text::text_view(token), clock));
    needed
}

/// The token that the environment file assigns, if there is such a file.
pub fn read_token_from(env_file: Option<&str>) -> (token: Option<String>)
    ensures
        text::string_view(token) == match env_file {
            Some(file) => token_store::env_token(file@),
            None => None,
        },
{
    match env_file {
        Some(file) => read_env_token(file),
        None => None,
    }
}

/// The environment file with the token in it.
pub fn write_token_to(env_file: Option<&str>, token: &str) -> (written: String)
    ensures
        written@ == token_store::env_with_token(text::text_view(env_file), token@),
{
    write_token(env_file, token)
}

// ---------------------------------------------------------------------------------------------
// Tokens in texts
// ---------------------------------------------------------------------------------------------

/// `c` ends a token in a text.
pub open spec fn ends_token(c: char, pasted: bool) -> bool {
    c == '&' || (pasted && text::white_space(c))
}

/// The characters from `from` on, up to one that ends a token.
pub open spec fn token_run(s: Seq<char>, from: int, pasted: bool) -> Seq<char>
    decreases s.len() - from,
{
    if from < 0 || from >= s.len() || ends_token(s[from], pasted) {
        Seq::empty()
    } else {
        seq![s[from]] + token_run(s, from + 1, pasted)
    }
}

/// Where a token would begin whose announcement stands at `at`: behind `access_token=`, and in an
/// address a `?` or `&` before that.
pub open spec fn announced(s: Seq<char>, at: int, pasted: bool) -> Option<int> {
    let word = "access_token="@;
    if pasted {
        if text::occurs_at(s, word, at) {
            Some(at + word.len())
        } else {
            None
        }
    } else if 0 <= at < s.len() && (s[at] == '?' || s[at] == '&') && text::occurs_at(
        s,
        word,
        at + 1,
    ) {
        Some(at + 1 + word.len())
    } else {
        None
    }
}

/// The first token that is announced from `from` on and is not empty.
pub open spec fn token_from(s: Seq<char>, from: int, pasted: bool) -> Option<Seq<char>>
    decreases s.len() - from,
{
    if from < 0 || from >= s.len() {
        None
    } else {
        match announced(s, from, pasted) {
            Some(start) if token_run(s, start, pasted).len() > 0 => Some(
                token_run(s, start, pasted),
            ),
            _ => token_from(s, from + 1, pasted),
        }
    }
}

/// `Regex::new` and `Regex::captures` of the crate `regex`, for the two expressions of this
/// module: the first group of the leftmost match, which is the longest run of characters that
/// may stand in a token behind its announcement.
#[verifier::external_body]
fn first_group(expression: &str, s: &str) -> (group: Option<String>)
    requires
        expression@ == ADDRESS_TOKEN@ || expression@ == PASTED_TOKEN@,
    ensures
        expression@ == ADDRESS_TOKEN@ ==> text::string_view(group) == token_from(s@, 0, false),
        expression@ == PASTED_TOKEN@ ==> text::string_view(group) == token_from(s@, 0, true),
{
    let re = regex::Regex::new(expression).unwrap();
    re.captures(s).and_then(|c| c.get(1).map(|m| m.as_str().to_string()))
}

/// The token that a pasted text holds: the announced one, or else the whole text without the
/// white space around it.
pub open spec fn pasted_token(raw: Seq<char>) -> Seq<char> {
    match token_from(raw, 0, true) {
        Some(token) => token,
        None => text::trimmed(raw),
    }
}

/// The token that a pasted text holds, or what is said instead.
pub open spec fn accepted_token(raw: Seq<char>) -> Result<Seq<char>, Seq<char>> {
    let token = pasted_token(raw);
    if !text::begins_with(token, "eyJ"@) {
        Err(NO_TOKEN@)
    } else if !token_store::substrate_token(token) {
        Err(FOREIGN_TOKEN@)
    } else {
        Ok(token)
    }
}

/// The environment file with the token of a pasted text in it: an address of the hub, or the
/// token itself.
pub fn set_token_from_input(raw: &str, env_file: Option<&str>) -> (written: Result<String, String>)
    ensures
        match (written, accepted_token(raw@)) {
            (Ok(file), Ok(token)) => file@ == token_store::env_with_token(
                text::text_view(env_file),
                token,
            ),
            (Err(e), Err(message)) => e@ == message,
            _ => false,
        },
{
    let token = match first_group(PASTED_TOKEN, raw) {
        Some(token) => token,
        None => trim_text(raw),
    };
    if !starts_with(token.as_str(), "eyJ") {
        return Err(NO_TOKEN.to_owned());
    }
    if !is_substrate_token(token.as_str()) {
        return Err(FOREIGN_TOKEN.to_owned());
    }
    Ok(write_token_to(env_file, token.as_str()))
}

// ---------------------------------------------------------------------------------------------
// What is sent to the browser
// ---------------------------------------------------------------------------------------------

/// A command without parameters.
pub open spec fn command_tree(id: int, method: Seq<char>) -> JsonTree {
    JsonTree::Object(
        Map::<Seq<char>, JsonTree>::empty()
            .insert("id"@, JsonTree::Int(id))
            .insert("method"@, JsonTree::Str(method)),
    )
}

/// A command with parameters.
pub open spec fn command_with(id: int, method: Seq<char>, params: JsonTree) -> JsonTree {
    JsonTree::Object(
        Map::<Seq<char>, JsonTree>::empty()
            .insert("id"@, JsonTree::Int(id))
            .insert("method"@, JsonTree::Str(method))
            .insert("params"@, params),
    )
}

/// The parameter that holds a script.
pub open spec fn script_tree(script: Seq<char>) -> JsonTree {
    JsonTree::Object(
        Map::<Seq<char>, JsonTree>::empty().insert("expression"@, JsonTree::Str(script)),
    )
}

/// The parameters of a press or a release of the backspace key.
pub open spec fn key_tree(event_type: Seq<char>) -> JsonTree {
    JsonTree::Object(
        Map::<Seq<char>, JsonTree>::empty()
            .insert("type"@, JsonTree::Str(event_type))
            .insert("windowsVirtualKeyCode"@, JsonTree::Int(8))
            .insert("nativeVirtualKeyCode"@, JsonTree::Int(8))
            .insert("key"@, JsonTree::Str("Backspace"@))
            .insert("code"@, JsonTree::Str("Backspace"@)),
    )
}

/// The message that has the page gather its tokens.
pub fn gather_message() -> (message: String)
    ensures
        message@ == json::printed(command_with(1, "Runtime.evaluate"@, script_tree(CDP_JS@))),
{
    let params = Json::object().with("expression", Json::text(CDP_JS));
    print_json(
        &Json::object().with("id", Json::integer(1)).with(
            "method",
            Json::text("Runtime.evaluate"),
        ).with("params", params),
    )
}

/// The message that has the browser tell of connections.
pub fn network_message(id: i64) -> (message: String)
    ensures
        message@ == json::printed(command_tree(id as int, "Network.enable"@)),
{
    print_json(
        &Json::object().with("id", Json::integer(id)).with("method", Json::text("Network.enable")),
    )
}

/// The messages that nudge the page into opening a connection: tell of connections, focus the
/// message box, type a space, and press and release backspace.
pub open spec fn nudge_trees() -> Seq<JsonTree> {
    Seq::<JsonTree>::empty()
        .push(command_tree(2, "Network.enable"@))
        .push(command_with(3, "Runtime.evaluate"@, script_tree(CDP_NUDGE_JS@)))
        .push(
            command_with(
                4,
                "Input.insertText"@,
                JsonTree::Object(
                    Map::<Seq<char>, JsonTree>::empty().insert("text"@, JsonTree::Str(" "@)),
                ),
            ),
        )
        .push(command_with(5, "Input.dispatchKeyEvent"@, key_tree("keyDown"@)))
        .push(command_with(6, "Input.dispatchKeyEvent"@, key_tree("keyUp"@)))
}

/// A press or a release of the backspace key.
fn key_message(id: i64, event_type: &str) -> (message: String)
    ensures
        message@ == json::printed(
            command_with(id as int, "Input.dispatchKeyEvent"@, key_tree(event_type@)),
        ),
{
    let params = Json::object()
        .with("type", Json::text(event_type))
        .with("windowsVirtualKeyCode", Json::integer(8))
        .with("nativeVirtualKeyCode", Json::integer(8))
        .with("key", Json::text("Backspace"))
        .with("code", Json::text("Backspace"));
    print_json(
        &Json::object().with("id", Json::integer(id)).with(
            "method",
            Json::text("Input.dispatchKeyEvent"),
        ).with("params", params),
    )
}

/// The messages that nudge the page into opening a connection, in order.
pub fn nudge_messages() -> (messages: Vec<String>)
    ensures
        text::views(messages@) == Seq::new(
            nudge_trees().len(),
            |i: int| json::printed(nudge_trees()[i]),
        ),
{
    let focus = Json::object().with("id", Json::integer(3)).with(
        "method",
        Json::text("Runtime.evaluate"),
    ).with("params", Json::object().with("expression", Json::text(CDP_NUDGE_JS)));
    let insert = Json::object().with("id", Json::integer(4)).with(
        "method",
        Json::text("Input.insertText"),
    ).with("params", Json::object().with("text", Json::text(" ")));
    let mut messages: Vec<String> = Vec::new();
    messages.push(network_message(2));
    messages.push(print_json(&focus));
    messages.push(print_json(&insert));
    messages.push(key_message(5, "keyDown"));
    messages.push(key_message(6, "keyUp"));
    assert(text::views(messages@) =~= Seq::new(
        nudge_trees().len(),
        |i: int| json::printed(nudge_trees()[i]),
    ));
    messages
}

// ---------------------------------------------------------------------------------------------
// What the browser answers
// ---------------------------------------------------------------------------------------------

/// The first text of a list that is a Substrate token.
pub open spec fn first_token(candidates: Seq<JsonTree>) -> Option<Seq<char>>
    decreases candidates.len(),
{
    if candidates.len() == 0 {
        None
    } else {
        match candidates[0].as_text() {
            Some(token) if token_store::substrate_token(token) => Some(token),
            _ => first_token(candidates.skip(1)),
        }
    }
}

/// The value that a script came to.
pub open spec fn script_value(message: JsonTree) -> Option<JsonTree> {
    match message.member("result"@) {
        Some(outer) => match outer.member("result"@) {
            Some(inner) => inner.member("value"@),
            None => None,
        },
        None => None,
    }
}

/// The token that the page gathered.
pub open spec fn gathered_token(raw: Seq<char>) -> Option<Seq<char>> {
    match json::parsed_text(raw) {
        Ok(message) => match script_value(message) {
            Some(JsonTree::Array(candidates)) => first_token(candidates),
            _ => None,
        },
        Err(_) => None,
    }
}

/// The address of the connection that a message tells of.
pub open spec fn opened_address(message: JsonTree) -> Option<Seq<char>> {
    if message.text_member("method"@) == Some("Network.webSocketCreated"@) {
        match message.member("params"@) {
            Some(params) => params.text_member("url"@),
            None => None,
        }
    } else {
        None
    }
}

/// The token in the address of a connection to Substrate.
pub open spec fn address_token(url: Seq<char>) -> Option<Seq<char>> {
    if text::occurs_in(url, "substrate.office.com"@) {
        match token_from(url, 0, false) {
            Some(token) if token_store::substrate_token(token) => Some(token),
            _ => None,
        }
    } else {
        None
    }
}

/// The token in a message that tells of a connection.
pub open spec fn announced_token(raw: Seq<char>) -> Option<Seq<char>> {
    match json::parsed_text(raw) {
        Ok(message) => match opened_address(message) {
            Some(url) => address_token(url),
            None => None,
        },
        Err(_) => None,
    }
}

/// The first text of a list that is a Substrate token.
fn find_token(candidates: &Vec<Json>) -> (token: Option<String>)
    ensures
        text::string_view(token) == first_token(json::trees(candidates@)),
{
    let ghost all = json::trees(candidates@);
    assert(all.skip(0) =~= all);
    for i in 0..candidates.len()
        invariant
            all == json::trees(candidates@),
            first_token(all) == first_token(all.skip(i as int)),
    {
        proof {
            assert(all.skip(i as int)[0] == candidates@[i as int].tree());
            assert(all.skip(i as int).skip(1) =~= all.skip(i + 1));
        }
        if let Some(token) = candidates[i].as_str() {
            if is_substrate_token(token) {
                return Some(token.to_owned());
            }
        }
    }
    assert(all.len() == candidates@.len());
    None
}

/// The token that the page gathered, by the answer to `gather_message`.
pub fn token_from_page(raw: &str) -> (token: Option<String>)
    ensures
        text::string_view(token) == gathered_token(raw@),
{
    let message = match parse_json(raw) {
        Ok(message) => message,
        Err(_) => return None,
    };
    let inner = match message.get("result") {
        Some(outer) => outer.get("result"),
        None => None,
    };
    let value = match inner {
        Some(inner) => inner.get("value"),
        None => None,
    };
    let candidates = match value {
        Some(value) => value.as_array(),
        None => None,
    };
    match candidates {
        Some(candidates) => find_token(candidates),
        None => None,
    }
}

/// The token in the address of a connection to Substrate.
pub fn token_from_address(url: &str) -> (token: Option<String>)
    ensures
        text::string_view(token) == address_token(url@),
{
    if !contains_text(url, "substrate.office.com") {
        return None;
    }
    match first_group(ADDRESS_TOKEN, url) {
        Some(token) => if is_substrate_token(token.as_str()) {
            Some(token)
        } else {
            None
        },
        None => None,
    }
}

/// The token in a message that tells of a connection.
pub fn token_from_event(raw: &str) -> (token: Option<String>)
    ensures
        text::string_view(token) == announced_token(raw@),
{
    let message = match parse_json(raw) {
        Ok(message) => message,
        Err(_) => return None,
    };
    let created = match message.get_str("method") {
        Some(method) => same_text(method, "Network.webSocketCreated"),
        None => false,
    };
    if !created {
        return None;
    }
    let url = match message.get("params") {
        Some(params) => params.get_str("url"),
        None => None,
    };
    match url {
        Some(url) => token_from_address(url),
        None => None,
    }
}

// ---------------------------------------------------------------------------------------------
// Going about it
// ---------------------------------------------------------------------------------------------

/// What follows the page's answer, or its silence.
pub enum AfterAnswer {
    Found(String),
    /// Nudge the page and listen for a connection.
    Nudge,
    GiveUp,
}

/// What follows the page's answer: the token that it gathered; else a nudge, where that is
/// allowed.
pub fn after_answer(raw: Option<&str>, allow_nudge: bool) -> (next: AfterAnswer)
    ensures
        match next {
            AfterAnswer::Found(token) => raw matches Some(answer) && gathered_token(answer@)
                == Some(token@),
            AfterAnswer::Nudge => allow_nudge && (raw matches Some(answer) ==> gathered_token(
                answer@,
            ) is None),
            AfterAnswer::GiveUp => !allow_nudge && (raw matches Some(answer) ==> gathered_token(
                answer@,
            ) is None),
        },
{
    let token = match raw {
        Some(answer) => token_from_page(answer),
        None => None,
    };
    match token {
        Some(token) => AfterAnswer::Found(token),
        None => if allow_nudge {
            AfterAnswer::Nudge
        } else {
            AfterAnswer::GiveUp
        },
    }
}

/// How many seconds are listened for a token after a nudge.
pub const NUDGE_SECONDS: u64 = 10;

/// What listening for a token does next.
pub enum ListenStep {
    Found(String),
    /// Wait for the next message for at most so many seconds.
    Again(u64),
    GiveUp,
}

/// What listening for a token does next.
pub enum ListenView {
    Found(Seq<char>),
    Again(u64),
    GiveUp,
}

impl View for ListenStep {
    type V = ListenView;

    open spec fn view(&self) -> ListenView {
        match self {
            ListenStep::Found(token) => ListenView::Found(token@),
            ListenStep::Again(seconds) => ListenView::Again(*seconds),
            ListenStep::GiveUp => ListenView::GiveUp,
        }
    }
}

/// What follows a message, or a second without one, where `seconds_left` are left: a token in the
/// message is taken, however late; without one, listening goes on second by second while there is
/// time.
pub open spec fn listening(seconds_left: u64, raw: Option<Seq<char>>) -> ListenView {
    match raw {
        Some(message) if announced_token(message) is Some => ListenView::Found(
            announced_token(message)->0,
        ),
        _ => if seconds_left == 0 {
            ListenView::GiveUp
        } else {
            ListenView::Again(1)
        },
    }
}

/// What follows a message of the browser, or its silence. `seconds_left` is zero exactly when the
/// time is up.
pub fn listen_step(seconds_left: u64, raw: Option<&str>) -> (step: ListenStep)
    ensures
        step@ == listening(seconds_left, text::text_view(raw)),
{
    if let Some(message) = raw {
        if let Some(token) = token_from_event(message) {
            return ListenStep::Found(token);
        }
    }
    if seconds_left == 0 {
        ListenStep::GiveUp
    } else {
        ListenStep::Again(1)
    }
}

/// What an attempt to listen for a token came to.
pub enum Attempt {
    /// The browser did not list its tabs.
    NoTabs,
    /// No tab shows M365 Copilot.
    NoPage,
    /// The tab names no debugger.
    NoDebugger,
    /// The debugger did not answer.
    NotConnected,
    /// The debugger did not take the message.
    NotSent,
    /// A token came, or the time was up.
    Listened(Option<String>),
}

/// What follows an attempt.
pub enum AfterAttempt {
    /// Another attempt, after a pause of as many seconds, if there is time.
    Again(u64),
    Done(Option<String>),
}

/// What follows an attempt.
pub open spec fn following(attempt: Attempt) -> AfterAttempt {
    match attempt {
        Attempt::NoTabs => AfterAttempt::Again(1),
        Attempt::NoPage => AfterAttempt::Again(1),
        Attempt::NoDebugger => AfterAttempt::Again(0),
        Attempt::NotConnected => AfterAttempt::Again(1),
        Attempt::NotSent => AfterAttempt::Done(None),
        Attempt::Listened(Some(token)) => AfterAttempt::Done(Some(token)),
        Attempt::Listened(None) => AfterAttempt::Again(0),
    }
}

/// What follows an attempt to listen for a token.
pub fn after_attempt(attempt: Attempt) -> (next: AfterAttempt)
    ensures
        next == following(attempt),
{
    match attempt {
        Attempt::NoTabs => AfterAttempt::Again(1),
        Attempt::NoPage => AfterAttempt::Again(1),
        Attempt::NoDebugger => AfterAttempt::Again(0),
        Attempt::NotConnected => AfterAttempt::Again(1),
        Attempt::NotSent => AfterAttempt::Done(None),
        Attempt::Listened(token) => match token {
            Some(token) => AfterAttempt::Done(Some(token)),
            None => AfterAttempt::Again(0),
        },
    }
}

/// How far the capture of a token at the start has come.
#[derive(Debug, Clone, Copy, PartialEq, Eq, Structural)]
pub enum CaptureState {
    WaitingForPage,
    Refreshing,
    Listening,
    Finished,
}

/// What the capture of a token at the start does next.
#[derive(Debug, Clone, Copy, PartialEq, Eq, Structural)]
pub enum CaptureAction {
    /// Wait for the page for at most so many seconds.
    WaitForPage(u64),
    /// Try to refresh the token from the page.
    Refresh,
    /// Listen for a connection for at most so many seconds.
    Listen(u64),
    Stop,
}

/// The seconds that the start waits for the page.
pub open spec fn page_wait(timeout_seconds: u64) -> u64 {
    if timeout_seconds < 30 {
        timeout_seconds
    } else {
        30
    }
}

/// The first step of the capture of a token at the start.
pub fn capture_start(timeout_seconds: u64) -> (step: (CaptureState, ServicePhase, CaptureAction))
    ensures
        step.0 is WaitingForPage,
        step.1 is WaitingForEdge,
        step.2 == CaptureAction::WaitForPage(page_wait(timeout_seconds)),
{
    let wait: u64 = if timeout_seconds < 30 {
        timeout_seconds
    } else {
        30
    };
    (
        CaptureState::WaitingForPage,
        ServicePhase::WaitingForEdge,
        CaptureAction::WaitForPage(wait),
    )
}

/// The step that follows: `done` says whether the last one did what it was to do. The page may
/// or may not have come; a refresh or a capture has a token saved, or not.
pub open spec fn capture_following(
    state: CaptureState,
    phase: ServicePhase,
    done: bool,
    timeout_seconds: u64,
) -> (CaptureState, ServicePhase, CaptureAction) {
    match state {
        CaptureState::WaitingForPage => (CaptureState::Refreshing, phase, CaptureAction::Refresh),
        CaptureState::Refreshing => if done {
            (CaptureState::Finished, ServicePhase::Ready, CaptureAction::Stop)
        } else {
            (
                CaptureState::Listening,
                ServicePhase::CapturingToken,
                CaptureAction::Listen(timeout_seconds),
            )
        },
        CaptureState::Listening => if done {
            (CaptureState::Finished, ServicePhase::Ready, CaptureAction::Stop)
        } else {
            (CaptureState::Finished, ServicePhase::CaptureFailed, CaptureAction::Stop)
        },
        CaptureState::Finished => (CaptureState::Finished, phase, CaptureAction::Stop),
    }
}

/// The step of the capture that follows.
pub fn capture_next(
    state: CaptureState,
    phase: ServicePhase,
    done: bool,
    timeout_seconds: u64,
) -> (step: (CaptureState, ServicePhase, CaptureAction))
    ensures
        step == capture_following(state, phase, done, timeout_seconds),
{
    match state {
        CaptureState::WaitingForPage => (CaptureState::Refreshing, phase, CaptureAction::Refresh),
        CaptureState::Refreshing => if done {
            (CaptureState::Finished, ServicePhase::Ready, CaptureAction::Stop)
        } else {
            (
                CaptureState::Listening,
                ServicePhase::CapturingToken,
                CaptureAction::Listen(timeout_seconds),
            )
        },
        CaptureState::Listening => if done {
            (CaptureState::Finished, ServicePhase::Ready, CaptureAction::Stop)
        } else {
            (CaptureState::Finished, ServicePhase::CaptureFailed, CaptureAction::Stop)
        },
        CaptureState::Finished => (CaptureState::Finished, phase, CaptureAction::Stop),
    }
}

// ---------------------------------------------------------------------------------------------
// Laws
// ---------------------------------------------------------------------------------------------

/// Characters that do not end a token, up to one that does or to the end, are the run.
proof fn lemma_token_run(s: Seq<char>, from: int, to: int, pasted: bool)
    requires
        0 <= from <= to <= s.len(),
        forall|i: int| from <= i < to ==> !ends_token(#[trigger] s[i], pasted),
        to == s.len() || ends_token(s[to], pasted),
    ensures
        token_run(s, from, pasted) == s.subrange(from, to),
    decreases to - from,
{
    if from < to {
        lemma_token_run(s, from + 1, to, pasted);
        assert(!ends_token(s[from], pasted));
        assert(seq![s[from]] + s.subrange(from + 1, to) =~= s.subrange(from, to));
    } else {
        assert(s.subrange(from, to) =~= Seq::empty());
    }
}

/// Nothing announced before `to` leaves the search where it would begin at `to`.
proof fn lemma_skip_unannounced(s: Seq<char>, from: int, to: int)
    requires
        0 <= from <= to <= s.len(),
        forall|i: int| from <= i < to ==> !#[trigger] text::occurs_at(s, "access_token="@, i),
    ensures
        token_from(s, from, true) == token_from(s, to, true),
    decreases to - from,
{
    if from < to {
        assert(!text::occurs_at(s, "access_token="@, from));
        lemma_skip_unannounced(s, from + 1, to);
    }
}

/// A pasted address gives the token that it announces: the one behind the first
/// `access_token=`, up to the next `&`, white space or the end.
pub proof fn law_pasted_address_gives_its_token(
    before: Seq<char>,
    token: Seq<char>,
    after: Seq<char>,
)
    requires
        token.len() > 0,
        forall|i: int| 0 <= i < token.len() ==> !ends_token(#[trigger] token[i], true),
        after.len() == 0 || ends_token(after[0], true),
        forall|i: int|
            0 <= i < before.len() ==> !#[trigger] text::occurs_at(
                before + "access_token="@ + token + after,
                "access_token="@,
                i,
            ),
    ensures
        pasted_token(before + "access_token="@ + token + after) == token,
{
    let word = "access_token="@;
    let s = before + word + token + after;
    let at = before.len() as int;
    let start = at + word.len();
    let end = start + token.len();
    reveal_strlit("access_token=");
    lemma_skip_unannounced(s, 0, at);
    assert(s.subrange(at, start) =~= word);
    assert(text::occurs_at(s, word, at));
    assert forall|i: int| start <= i < end implies !ends_token(#[trigger] s[i], true) by {
        assert(s[i] == token[i - start]);
    }
    if end < s.len() {
        assert(s[end] == after[0]);
    }
    lemma_token_run(s, start, end, true);
    assert(s.subrange(start, end) =~= token);
}

/// A token that was pasted is what the environment file assigns afterwards, where it can be
/// stored.
pub proof fn law_pasted_token_is_read_back(
    raw: Seq<char>,
    env_file: Option<Seq<char>>,
    token: Seq<char>,
)
    requires
        accepted_token(raw) == Ok::<Seq<char>, Seq<char>>(token),
        token_store::storable(token),
        token_store::overwritable(env_file, token),
    ensures
        token_store::env_token(token_store::env_with_token(env_file, token)) == Some(token),
{
    token_store::law_written_token_is_read_back(env_file, token);
}

/// What is taken for a token, from the page or from a connection, is a Substrate token.
pub proof fn law_captured_tokens_are_substrate_tokens(raw: Seq<char>)
    ensures
        gathered_token(raw) matches Some(token) ==> token_store::substrate_token(token),
        announced_token(raw) matches Some(token) ==> token_store::substrate_token(token),
        accepted_token(raw) matches Ok(token) ==> token_store::substrate_token(token),
{
    if let Ok(message) = json::parsed_text(raw) {
        if let Some(JsonTree::Array(candidates)) = script_value(message) {
            lemma_first_token(candidates);
        }
    }
}

proof fn lemma_first_token(candidates: Seq<JsonTree>)
    ensures
        first_token(candidates) matches Some(token) ==> token_store::substrate_token(token),
    decreases candidates.len(),
{
    if candidates.len() > 0 {
        lemma_first_token(candidates.skip(1));
    }
}

/// The token that listening comes to, by the messages and the time that is left at each.
pub open spec fn listened(left: Seq<u64>, messages: Seq<Option<Seq<char>>>) -> Option<Seq<char>>
    decreases messages.len(),
{
    if messages.len() == 0 || left.len() == 0 {
        None
    } else {
        match listening(left[0], messages[0]) {
            ListenView::Found(token) => Some(token),
            ListenView::GiveUp => None,
            ListenView::Again(_) => listened(left.skip(1), messages.skip(1)),
        }
    }
}

/// Listening takes the first token that is announced: messages before it without one do not
/// matter while there is time. Where none is announced it is given up once the time is up.
pub proof fn law_listening_takes_the_first_token(
    left: Seq<u64>,
    messages: Seq<Option<Seq<char>>>,
    at: int,
)
    requires
        0 <= at < messages.len(),
        left.len() == messages.len(),
        forall|i: int| 0 <= i < at ==> (#[trigger] left[i]) > 0,
        forall|i: int|
            0 <= i < at ==> ((#[trigger] messages[i]) matches Some(m) ==> announced_token(m)
                is None),
        left[at] == 0 || (messages[at] matches Some(m) && announced_token(m) is Some),
    ensures
        listened(left, messages) == match messages[at] {
            Some(m) => announced_token(m),
            None => None,
        },
    decreases at,
{
    if at > 0 {
        assert(left[0] > 0);
        assert(messages[0] matches Some(m) ==> announced_token(m) is None);
        let later = left.skip(1);
        let rest = messages.skip(1);
        assert forall|i: int| 0 <= i < at - 1 implies (#[trigger] later[i]) > 0 by {
            assert(left[i + 1] > 0);
        }
        assert forall|i: int| 0 <= i < at - 1 implies ((#[trigger] rest[i]) matches Some(m)
            ==> announced_token(m) is None) by {
            assert(messages[i + 1] matches Some(m) ==> announced_token(m) is None);
        }
        law_listening_takes_the_first_token(later, rest, at - 1);
    }
}

/// The capture at the start comes to an end after three steps, and the service is then ready or
/// has failed to get a token; it is ready exactly when one was saved.
pub proof fn law_startup_capture_ends(
    timeout_seconds: u64,
    page_came: bool,
    refreshed: bool,
    captured: bool,
)
    ensures
        ({
            let one = capture_following(
                CaptureState::WaitingForPage,
                ServicePhase::WaitingForEdge,
                page_came,
                timeout_seconds,
            );
            let two = capture_following(one.0, one.1, refreshed, timeout_seconds);
            let three = capture_following(two.0, two.1, captured, timeout_seconds);
            &&& three.0 is Finished
            &&& three.1 == if refreshed || captured {
                ServicePhase::Ready
            } else {
                ServicePhase::CaptureFailed
            }
        }),
{
}

/// The page that is asked is the first tab that is a page and whose address begins with that of
/// M365 Copilot; other tabs do not matter.
pub proof fn law_first_page_is_asked(tabs: Seq<JsonTree>, at: int)
    requires
        0 <= at <= tabs.len(),
        forall|i: int| 0 <= i < at ==> !shows_m365(#[trigger] tabs[i]),
        at < tabs.len() ==> shows_m365(tabs[at]),
    ensures
        at < tabs.len() ==> first_page(tabs) == Some(tabs[at]),
        at < tabs.len() ==> debugger_address(tabs) == tabs[at].text_member(
            "webSocketDebuggerUrl"@,
        ),
        at == tabs.len() ==> first_page(tabs) is None && debugger_address(tabs) is None,
    decreases at,
{
    if at > 0 {
        assert(!shows_m365(tabs[0]));
        let rest = tabs.skip(1);
        assert forall|i: int| 0 <= i < at - 1 implies !shows_m365(#[trigger] rest[i]) by {
            assert(rest[i] == tabs[i + 1]);
        }
        law_first_page_is_asked(rest, at - 1);
    }
}

/// A page whose address begins with that of M365 Copilot.
pub open spec fn shows_m365(tab: JsonTree) -> bool {
    &&& tab.text_member("type"@) == Some("page"@)
    &&& tab.text_member("url"@) matches Some(url)
    &&& text::begins_with(url, "https://m365.cloud.microsoft/"@)
}

/// Of what the page gathered, the first text that is a Substrate token is taken.
pub proof fn law_first_gathered_token_is_taken(
    raw: Seq<char>,
    message: JsonTree,
    candidates: Seq<JsonTree>,
    at: int,
)
    requires
        json::parsed_text(raw) == Ok::<JsonTree, Seq<char>>(message),
        message.at("result"@).at("result"@).at("value"@) == JsonTree::Array(candidates),
        0 <= at <= candidates.len(),
        forall|i: int|
            0 <= i < at ==> !((#[trigger] candidates[i]) matches JsonTree::Str(s)
                && token_store::substrate_token(s)),
        at < candidates.len() ==> (candidates[at] matches JsonTree::Str(s)
            && token_store::substrate_token(s)),
    ensures
        gathered_token(raw) == if at < candidates.len() {
            Some(candidates[at]->Str_0)
        } else {
            None
        },
{
    lemma_first_token_at(candidates, at);
}

proof fn lemma_first_token_at(candidates: Seq<JsonTree>, at: int)
    requires
        0 <= at <= candidates.len(),
        forall|i: int|
            0 <= i < at ==> !((#[trigger] candidates[i]) matches JsonTree::Str(s)
                && token_store::substrate_token(s)),
        at < candidates.len() ==> (candidates[at] matches JsonTree::Str(s)
            && token_store::substrate_token(s)),
    ensures
        first_token(candidates) == if at < candidates.len() {
            Some(candidates[at]->Str_0)
        } else {
            None
        },
    decreases at,
{
    if at > 0 {
        let first = candidates[0];
        let rest = candidates.skip(1);
        assert forall|i: int| 0 <= i < at - 1 implies !((#[trigger] rest[i]) matches JsonTree::Str(
            s,
        ) && token_store::substrate_token(s)) by {
            assert(rest[i] == candidates[i + 1]);
        }
        lemma_first_token_at(rest, at - 1);
    }
}

/// Nothing announced before `to` leaves the search in an address where it would begin at `to`.
proof fn lemma_skip_in_address(s: Seq<char>, from: int, to: int)
    requires
        0 <= from <= to <= s.len(),
        forall|i: int| from < i <= to ==> !#[trigger] text::occurs_at(s, "access_token="@, i),
    ensures
        token_from(s, from, false) == token_from(s, to, false),
    decreases to - from,
{
    if from < to {
        assert(!text::occurs_at(s, "access_token="@, from + 1));
        lemma_skip_in_address(s, from + 1, to);
    }
}

/// The address of a connection to Substrate gives the token that it announces: the one behind the
/// first `access_token=`, which a `?` or `&` precedes, up to the next `&` or the end. A token that
/// is not Substrate's is not taken, and neither is one in another address.
pub proof fn law_opened_address_gives_its_token(
    before: Seq<char>,
    mark: char,
    token: Seq<char>,
    after: Seq<char>,
)
    requires
        mark == '?' || mark == '&',
        token.len() > 0,
        !token.contains('&'),
        after.len() == 0 || after[0] == '&',
        forall|i: int|
            0 < i <= before.len() ==> !#[trigger] text::occurs_at(
                before.push(mark) + "access_token="@ + token + after,
                "access_token="@,
                i,
            ),
    ensures
        ({
            let url = before.push(mark) + "access_token="@ + token + after;
            address_token(url) == if text::occurs_in(url, "substrate.office.com"@)
                && token_store::substrate_token(token) {
                Some(token)
            } else {
                None
            }
        }),
{
    let word = "access_token="@;
    let s = before.push(mark) + word + token + after;
    let at = before.len() as int;
    let start = at + 1 + word.len();
    let end = start + token.len();
    reveal_strlit("access_token=");
    lemma_skip_in_address(s, 0, at);
    assert(s[at] == mark);
    assert(s.subrange(at + 1, start) =~= word);
    assert(text::occurs_at(s, word, at + 1));
    assert forall|i: int| start <= i < end implies !ends_token(#[trigger] s[i], false) by {
        assert(s[i] == token[i - start]);
    }
    if end < s.len() {
        assert(s[end] == after[0]);
    }
    lemma_token_run(s, start, end, false);
    assert(s.subrange(start, end) =~= token);
}

/// A message of the browser gives a token exactly where it tells that a connection was created
/// whose address gives one.
pub proof fn law_created_connections_are_read(raw: Seq<char>)
    ensures
        json::parsed_text(raw) is Err ==> announced_token(raw) is None,
        json::parsed_text(raw) matches Ok(message) ==> announced_token(raw) == match message.at(
            "params"@,
        ).at("url"@) {
            JsonTree::Str(url) if message.at("method"@) == JsonTree::Str(
                "Network.webSocketCreated"@,
            ) => address_token(url),
            _ => None,
        },
{
}

/// A pasted text is accepted exactly where the token in it begins with `eyJ` and is Substrate's;
/// what is wrong is told. A text that announces no token is taken for the token, without white
/// space around it.
pub proof fn law_pasted_tokens_are_checked(raw: Seq<char>)
    ensures
        accepted_token(raw) is Ok <==> text::begins_with(pasted_token(raw), "eyJ"@)
            && token_store::substrate_token(pasted_token(raw)),
        accepted_token(raw) matches Ok(token) ==> token == pasted_token(raw),
        accepted_token(raw) matches Err(message) ==> message == if text::begins_with(
            pasted_token(raw),
            "eyJ"@,
        ) {
            FOREIGN_TOKEN@
        } else {
            NO_TOKEN@
        },
        !text::occurs_in(raw, "access_token="@) ==> pasted_token(raw) == text::trimmed(raw),
{
    if !text::occurs_in(raw, "access_token="@) {
        assert forall|i: int| 0 <= i < raw.len() implies !#[trigger] text::occurs_at(
            raw,
            "access_token="@,
            i,
        ) by {}
        lemma_skip_unannounced(raw, 0, raw.len() as int);
    }
}

/// Listening waits for a second at a time.
pub proof fn law_listening_looks_at_the_time_each_second(
    seconds_left: u64,
    raw: Option<Seq<char>>,
)
    ensures
        listening(seconds_left, raw) matches ListenView::Again(wait) ==> wait == 1 && seconds_left
            > 0,
        listening(seconds_left, raw) is GiveUp ==> seconds_left == 0,
        listening(seconds_left, raw) matches ListenView::Found(token) ==> (raw matches Some(m)
            && announced_token(m) == Some(token)),
{
}

/// An attempt that got a token is the last and gives it; one whose message was not taken is the
/// last and gives none. Every other is followed by another, at once where the page was reached
/// and after a second where it was not.
pub proof fn law_attempts_are_repeated(attempt: Attempt)
    ensures
        attempt matches Attempt::Listened(Some(token)) ==> following(attempt)
            == AfterAttempt::Done(Some(token)),
        attempt is NotSent ==> following(attempt) == AfterAttempt::Done(None),
        attempt is NoTabs || attempt is NoPage || attempt is NotConnected ==> following(attempt)
            == AfterAttempt::Again(1),
        attempt is NoDebugger || attempt == Attempt::Listened(None) ==> following(attempt)
            == AfterAttempt::Again(0),
{
}

/// The capture at the start waits for the page for half a minute at most, then tries to refresh
/// the token, whether or not the page came, and listens for a connection only where that failed,
/// for as long as was asked for.
pub proof fn law_startup_capture_goes_step_by_step(
    timeout_seconds: u64,
    phase: ServicePhase,
    done: bool,
)
    ensures
        page_wait(timeout_seconds) <= timeout_seconds,
        page_wait(timeout_seconds) <= 30,
        page_wait(timeout_seconds) == timeout_seconds || page_wait(timeout_seconds) == 30,
        capture_following(CaptureState::WaitingForPage, phase, done, timeout_seconds) == (
            CaptureState::Refreshing,
            phase,
            CaptureAction::Refresh,
        ),
        capture_following(CaptureState::Refreshing, phase, false, timeout_seconds) == (
            CaptureState::Listening,
            ServicePhase::CapturingToken,
            CaptureAction::Listen(timeout_seconds),
        ),
        capture_following(CaptureState::Refreshing, phase, true, timeout_seconds).2
            == CaptureAction::Stop,
        capture_following(CaptureState::Listening, phase, done, timeout_seconds).2
            == CaptureAction::Stop,
        capture_following(CaptureState::Finished, phase, done, timeout_seconds) == (
            CaptureState::Finished,
            phase,
            CaptureAction::Stop,
        ),
{
}

/// A command to the browser carries its number, its method and its parameters, and a script is
/// handed over as it is.
pub proof fn law_commands_carry_what_they_ask(
    id: int,
    method: Seq<char>,
    params: JsonTree,
    script: Seq<char>,
)
    ensures
        command_tree(id, method).at("id"@) == JsonTree::Int(id),
        command_tree(id, method).at("method"@) == JsonTree::Str(method),
        command_with(id, method, params).at("id"@) == JsonTree::Int(id),
        command_with(id, method, params).at("method"@) == JsonTree::Str(method),
        command_with(id, method, params).at("params"@) == params,
        script_tree(script).at("expression"@) == JsonTree::Str(script),
{
    lemma_command_names();
}

/// The names of the members of a command differ.
proof fn lemma_command_names()
    ensures
        "id"@.len() == 2,
        "method"@.len() == 6,
        "params"@.len() == 6,
        "method"@ != "params"@,
{
    reveal_strlit("id");
    reveal_strlit("method");
    reveal_strlit("params");
    assert("method"@[0] == 'm');
    assert("params"@[0] == 'p');
}

/// A key that is pressed or released in the page is Backspace.
pub proof fn law_backspace_is_pressed(event_type: Seq<char>)
    ensures
        ({
            let tree = key_tree(event_type);
            &&& tree.names() == set![
                "type"@,
                "windowsVirtualKeyCode"@,
                "nativeVirtualKeyCode"@,
                "key"@,
                "code"@,
            ]
            &&& tree.at("type"@) == JsonTree::Str(event_type)
            &&& tree.at("windowsVirtualKeyCode"@) == JsonTree::Int(8)
            &&& tree.at("nativeVirtualKeyCode"@) == JsonTree::Int(8)
            &&& tree.at("key"@) == JsonTree::Str("Backspace"@)
            &&& tree.at("code"@) == JsonTree::Str("Backspace"@)
        }),
{
    lemma_key_names();
}

/// The names of the members of a key differ.
proof fn lemma_key_names()
    ensures
        "type"@.len() == 4,
        "windowsVirtualKeyCode"@.len() == 21,
        "nativeVirtualKeyCode"@.len() == 20,
        "key"@.len() == 3,
        "code"@.len() == 4,
        "type"@ != "code"@,
{
    reveal_strlit("type");
    reveal_strlit("windowsVirtualKeyCode");
    reveal_strlit("nativeVirtualKeyCode");
    reveal_strlit("key");
    reveal_strlit("code");
    assert("type"@[0] == 't');
    assert("code"@[0] == 'c');
}

/// The page is nudged by five commands, one behind the other: to listen to the network, to look for
/// the box, to type a space into it, and to take it back with a key.
pub proof fn law_page_is_nudged_in_five_steps()
    ensures
        nudge_trees().len() == 5,
        forall|i: int|
            0 <= i < 5 ==> #[trigger] nudge_trees()[i].at("id"@) == JsonTree::Int(i + 2),
        nudge_trees()[0].at("method"@) == JsonTree::Str("Network.enable"@),
        nudge_trees()[1].at("method"@) == JsonTree::Str("Runtime.evaluate"@),
        nudge_trees()[1].at("params"@).at("expression"@) == JsonTree::Str(CDP_NUDGE_JS@),
        nudge_trees()[2].at("method"@) == JsonTree::Str("Input.insertText"@),
        nudge_trees()[2].at("params"@).at("text"@) == JsonTree::Str(" "@),
        nudge_trees()[3].at("method"@) == JsonTree::Str("Input.dispatchKeyEvent"@),
        nudge_trees()[3].at("params"@).at("type"@) == JsonTree::Str("keyDown"@),
        nudge_trees()[4].at("method"@) == JsonTree::Str("Input.dispatchKeyEvent"@),
        nudge_trees()[4].at("params"@).at("type"@) == JsonTree::Str("keyUp"@),
{
    lemma_command_names();
    lemma_key_names();
}

} // verus!
