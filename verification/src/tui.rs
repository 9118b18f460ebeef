//! The dashboard: what keys do, and what is shown.
use vstd::prelude::*;
use vstd::string::*;

use crate::config::{self, AppConfig};
use crate::keys::Key;
use crate::logging::{self, LogLine};
use crate::onboarding::{self, on_off};
use crate::runtime_status::{self, ServicePhase};
use crate::text::{
    self, chars_of, same_text, signed_text, unsigned_text, upper_text,
};
use crate::token_store::{self, TokenStatus};

verus! {

/// What a user asks the service to do.
#[derive(Debug, Clone, Copy, PartialEq, Eq, Structural)]
pub enum UiAction {
    Quit,
    RefreshToken,
    LaunchEdge,
}

/// What the dashboard shows of the service.
pub struct TuiContext {
    pub config: AppConfig,
    pub listen_addr: String,
    pub phase: ServicePhase,
}

// ---------------------------------------------------------------------------------------------
// Keys
// ---------------------------------------------------------------------------------------------

/// The dashboard: how far the log is scrolled, and how many lines it had.
#[derive(Debug, Clone, Copy, PartialEq, Eq, Structural)]
pub struct TuiState {
    pub scroll: u16,
    pub last_line_count: usize,
}

/// `a - b`, but not below zero.
pub open spec fn less(a: int, b: int) -> int {
    if a > b {
        a - b
    } else {
        0
    }
}

/// `a + b`, but not above what a `u16` holds.
pub open spec fn more(a: int, b: int) -> int {
    if a + b > u16::MAX {
        u16::MAX as int
    } else {
        a + b
    }
}

/// The letter, small or capital.
pub open spec fn letter(key: Key, small: char, capital: char) -> bool {
    key == Key::Char(small) || key == Key::Char(capital)
}

/// What a key asks for.
pub open spec fn action_of(key: Key, ctrl: bool) -> Option<UiAction> {
    if letter(key, 'q', 'Q') || (key == Key::Char('c') && ctrl) {
        Some(UiAction::Quit)
    } else if letter(key, 'r', 'R') {
        Some(UiAction::RefreshToken)
    } else if letter(key, 'e', 'E') {
        Some(UiAction::LaunchEdge)
    } else {
        None
    }
}

/// Where the log is scrolled to after a key.
pub open spec fn scrolled(scroll: u16, key: Key) -> int {
    if key is Up || key == Key::Char('k') {
        less(scroll as int, 1)
    } else if key is Down || key == Key::Char('j') {
        more(scroll as int, 1)
    } else if key is PageUp {
        less(scroll as int, 10)
    } else if key is PageDown {
        more(scroll as int, 10)
    } else {
        scroll as int
    }
}

/// Where the log is scrolled to once it has so many lines: as many lines on as were added.
pub open spec fn followed(s: TuiState, count: int) -> int {
    if count > s.last_line_count {
        more(s.scroll as int, (count - s.last_line_count) % 0x1_0000)
    } else {
        s.scroll as int
    }
}

impl TuiState {
    /// The dashboard at its beginning.
    pub fn new() -> (state: Self)
        ensures
            state.scroll == 0,
            state.last_line_count == 0,
    {
        TuiState { scroll: 0, last_line_count: 0 }
    }

    /// Follows the log, which now has so many lines.
    pub fn follow(&mut self, count: usize)
        ensures
            final(self).scroll == followed(*old(self), count as int),
            final(self).last_line_count == count,
    {
        if count > self.last_line_count {
            let added: u16 = ((count - self.last_line_count) % 0x1_0000) as u16;
            self.scroll = self.scroll.saturating_add(added);
        }
        self.last_line_count = count;
    }

    /// Takes a key: what it asks for. The dashboard closes with a request to quit.
    pub fn handle_key(&mut self, key: Key, ctrl: bool) -> (action: Option<UiAction>)
        ensures
            action == action_of(key, ctrl),
            final(self).scroll == scrolled(old(self).scroll, key),
            final(self).last_line_count == old(self).last_line_count,
    {
        match key {
            Key::Char('q') | Key::Char('Q') => Some(UiAction::Quit),
            Key::Char('r') | Key::Char('R') => Some(UiAction::RefreshToken),
            Key::Char('e') | Key::Char('E') => Some(UiAction::LaunchEdge),
            Key::Char('c') => if ctrl {
                Some(UiAction::Quit)
            } else {
                None
            },
            Key::Up | Key::Char('k') => {
                self.scroll = self.scroll.saturating_sub(1);
                None
            },
            Key::Down | Key::Char('j') => {
                self.scroll = self.scroll.saturating_add(1);
                None
            },
            Key::PageUp => {
                self.scroll = self.scroll.saturating_sub(10);
                None
            },
            Key::PageDown => {
                self.scroll = self.scroll.saturating_add(10);
                None
            },
            _ => None,
        }
    }
}

// ---------------------------------------------------------------------------------------------
// What is shown
// ---------------------------------------------------------------------------------------------

/// A colour of the dashboard.
#[derive(Debug, Clone, Copy, PartialEq, Eq, Structural)]
pub enum Tone {
    Red,
    Yellow,
    Green,
    Cyan,
    DarkGray,
    White,
}

/// The colour of a level of the log.
pub open spec fn level_tone(level: Seq<char>) -> Tone {
    let name = text::upper(level);
    if name == "ERROR"@ {
        Tone::Red
    } else if name == "WARN"@ || name == "WARNING"@ {
        Tone::Yellow
    } else if name == "INFO"@ {
        Tone::Cyan
    } else if name == "DEBUG"@ || name == "TRACE"@ {
        Tone::DarkGray
    } else {
        Tone::White
    }
}

/// The colour of a level of the log.
pub fn level_color(level: &str) -> (tone: Tone)
    ensures
        tone == level_tone(level@),
{
    let name = upper_text(level);
    let name = name.as_str();
    if same_text(name, "ERROR") {
        Tone::Red
    } else if same_text(name, "WARN") || same_text(name, "WARNING") {
        Tone::Yellow
    } else if same_text(name, "INFO") {
        Tone::Cyan
    } else if same_text(name, "DEBUG") || same_text(name, "TRACE") {
        Tone::DarkGray
    } else {
        Tone::White
    }
}

/// The colour of a phase of the service.
pub fn phase_color(phase: ServicePhase) -> (tone: Tone)
    ensures
        tone == match phase {
            ServicePhase::Ready => Tone::Green,
            ServicePhase::CaptureFailed => Tone::Red,
            _ => Tone::Yellow,
        },
{
    match phase {
        ServicePhase::Ready => Tone::Green,
        ServicePhase::CaptureFailed => Tone::Red,
        _ => Tone::Yellow,
    }
}

/// The colour of the token's status.
pub fn token_color(status: &TokenStatus) -> (tone: Tone)
    ensures
        tone == if status@.valid {
            Tone::Green
        } else {
            Tone::Red
        },
{
    if status.valid {
        Tone::Green
    } else {
        Tone::Red
    }
}

/// How the token's status reads.
pub open spec fn token_text(status: token_store::StatusView) -> Seq<char> {
    if status.valid {
        "valid · "@ + text::signed_decimal(status.seconds_remaining as int) + "s remaining"@
    } else {
        match status.error {
            Some(message) => message,
            None => "missing or expired"@,
        }
    }
}

/// How the token's status reads.
pub fn token_label(status: &TokenStatus) -> (label: String)
    ensures
        label@ == token_text(status@),
{
    if status.valid {
        let mut label = "valid · ".to_owned();
        label.append(signed_text(status.seconds_remaining).as_str());
        label.append("s remaining");
        label
    } else {
        match &status.error {
            Some(message) => message.clone(),
            None => "missing or expired".to_owned(),
        }
    }
}

/// How the settings of the browser read.
pub open spec fn browser_text(c: config::ConfigView) -> Seq<char> {
    "CDP :"@ + text::decimal(c.edge.cdp_port as int) + " · "@
        + if c.edge.headless_when_authenticated {
        "headless when authed"@
    } else {
        "visible browser"@
    } + " · auto-refresh "@ + onboarding::switch_name(c.token.auto_refresh) + " · capture "@
        + onboarding::switch_name(c.token.capture_on_start)
}

/// How the settings of the browser read.
fn browser_label(config: &AppConfig) -> (label: String)
    ensures
        label@ == browser_text(config@),
{
    let mut label = "CDP :".to_owned();
    label.append(unsigned_text(config.edge.cdp_port as u64).as_str());
    label.append(" · ");
    label.append(
        if config.edge.headless_when_authenticated {
            "headless when authed"
        } else {
            "visible browser"
        },
    );
    label.append(" · auto-refresh ");
    label.append(on_off(config.token.auto_refresh));
    label.append(" · capture ");
    label.append(on_off(config.token.capture_on_start));
    label
}

/// What is said of the service, line by line, behind its labels.
pub open spec fn status_texts(
    phase: ServicePhase,
    listen_addr: Seq<char>,
    c: config::ConfigView,
    status: token_store::StatusView,
) -> Seq<Seq<char>> {
    seq![
        runtime_status::phase_label(phase),
        "http://"@ + listen_addr,
        c.token.model_alias,
        token_text(status),
        browser_text(c),
        onboarding::switch_name(c.ui.tray),
    ]
}

impl TuiContext {
    /// What is said of the service, line by line: its phase, where it listens, its model, the
    /// token, the browser and the tray.
    pub fn status_lines(&self, status: &TokenStatus) -> (lines: Vec<String>)
        ensures
            text::views(lines@) == status_texts(
                self.phase,
                self.listen_addr@,
                self.config@,
                status@,
            ),
    {
        let mut listen = "http://".to_owned();
        listen.append(self.listen_addr.as_str());
        let mut lines: Vec<String> = Vec::new();
        lines.push(self.phase.label().to_owned());
        lines.push(listen);
        lines.push(self.config.token.model_alias.clone());
        lines.push(token_label(status));
        lines.push(browser_label(&self.config));
        lines.push(on_off(self.config.ui.tray).to_owned());
        assert(text::views(lines@) =~= status_texts(
            self.phase,
            self.listen_addr@,
            self.config@,
            status@,
        ));
        lines
    }
}

/// A text of at most so many characters: a longer one is cut, and ends in an ellipsis.
pub open spec fn shortened(s: Seq<char>, max: int) -> Seq<char> {
    if max == 0 {
        Seq::empty()
    } else if s.len() <= max {
        s
    } else {
        s.take(max - 1).push('…')
    }
}

/// A text of at most so many characters: a longer one is cut, and ends in an ellipsis.
pub fn truncate_line(s: &str, max_chars: usize) -> (line: String)
    ensures
        line@ == shortened(s@, max_chars as int),
{
    if max_chars == 0 {
        return String::new();
    }
    let chars = chars_of(s);
    if chars.len() <= max_chars {
        return s.to_owned();
    }
    let mut line = text::part_of(s, 0, max_chars - 1);
    assert(line@ =~= s@.take(max_chars - 1));
    line.push('…');
    line
}

/// A text followed by spaces up to a width.
pub open spec fn padded(s: Seq<char>, width: int) -> Seq<char>
    decreases width - s.len(),
{
    if s.len() >= width {
        s
    } else {
        padded(s.push(' '), width)
    }
}

/// How a level of the log stands before its line: in capitals, five characters wide, and a
/// space.
pub fn level_label(level: &str) -> (label: String)
    ensures
        label@ == padded(text::upper(level@), 5).push(' '),
{
    let mut label = upper_text(level);
    let mut width: usize = label.as_str().unicode_len();
    let ghost whole = padded(label@, 5);
    while width < 5
        invariant
            width == label@.len(),
            padded(label@, 5) == whole,
        decreases 5 - width,
    {
        label.push(' ');
        width = width + 1;
    }
    label.push(' ');
    label
}

/// The lines of the log that are shown: as many as there is room for, from where it is scrolled
/// to.
pub open spec fn window(lines: Seq<logging::LineView>, scroll: int, height: int) -> Seq<
    logging::LineView,
> {
    let rest = if scroll >= lines.len() {
        Seq::empty()
    } else {
        lines.skip(scroll)
    };
    if rest.len() <= height {
        rest
    } else {
        rest.take(height)
    }
}

/// The lines of the log that are shown, each of at most so many characters behind its level.
pub fn visible_logs(logs: &[LogLine], scroll: u16, height: usize, width: usize) -> (shown: Vec<
    LogLine,
>)
    ensures
        logging::line_views(shown@) == Seq::new(
            window(logging::line_views(logs@), scroll as int, height as int).len(),
            |i: int|
                {
                    let line = window(
                        logging::line_views(logs@),
                        scroll as int,
                        height as int,
                    )[i];
                    logging::LineView {
                        level: line.level,
                        message: shortened(line.message, width as int),
                    }
                },
        ),
{
    let ghost all = logging::line_views(logs@);
    let ghost view = window(all, scroll as int, height as int);
    let mut shown: Vec<LogLine> = Vec::new();
    let mut at: usize = scroll as usize;
    while at < logs.len() && shown.len() < height
        invariant
            all == logging::line_views(logs@),
            view == window(all, scroll as int, height as int),
            shown@.len() <= height,
            scroll <= logs@.len() ==> at <= logs@.len() && at == scroll + shown@.len(),
            scroll > logs@.len() ==> at == scroll && shown@.len() == 0,
            forall|j: int|
                0 <= j < shown@.len() ==> (#[trigger] shown@[j])@ == (logging::LineView {
                    level: all[scroll + j].level,
                    message: shortened(all[scroll + j].message, width as int),
                }),
        decreases logs@.len() - at,
    {
        assert(all[at as int] == logs@[at as int]@);
        let line = &logs[at];
        shown.push(
            LogLine {
                level: line.level.clone(),
                message: truncate_line(line.message.as_str(), width),
            },
        );
        at = at + 1;
    }
    proof {
        assert(all.len() == logs@.len());
        assert(shown@.len() == view.len());
        assert forall|i: int| 0 <= i < view.len() implies view[i] == all[scroll + i] by {
        }
        let wanted = Seq::new(
            view.len(),
            |i: int|
                {
                    let line = view[i];
                    logging::LineView {
                        level: line.level,
                        message: shortened(line.message, width as int),
                    }
                },
        );
        assert(logging::line_views(shown@) =~= wanted);
        assert(wanted =~= Seq::new(
            window(logging::line_views(logs@), scroll as int, height as int).len(),
            |i: int|
                {
                    let line = window(
                        logging::line_views(logs@),
                        scroll as int,
                        height as int,
                    )[i];
                    logging::LineView {
                        level: line.level,
                        message: shortened(line.message, width as int),
                    }
                },
        ));
    }
    shown
}

/// The title of the log: the first line that is shown, and how many there are.
pub fn log_title(scroll: u16, count: usize) -> (title: String)
    ensures
        title@ == "Logs ("@ + text::decimal(scroll + 1) + "/"@ + text::decimal(count as int)
            + ")"@,
{
    let first: u64 = scroll as u64 + 1;
    let mut title = "Logs (".to_owned();
    title.append(unsigned_text(first).as_str());
    title.append("/");
    title.append(unsigned_text(count as u64).as_str());
    title.append(")");
    title
}

// ---------------------------------------------------------------------------------------------
// Laws
// ---------------------------------------------------------------------------------------------

/// A shortened text has at most so many characters.
pub proof fn law_shortened_texts_fit(s: Seq<char>, max: int)
    requires
        max >= 0,
    ensures
        shortened(s, max).len() <= max,
{
}

/// Scrolling down and up again leads back, where the log can be scrolled that far.
pub proof fn law_scrolling_leads_back(scroll: u16)
    requires
        scroll < u16::MAX,
    ensures
        scrolled(scrolled(scroll, Key::Down) as u16, Key::Up) == scroll,
{
}

/// The keys of the dashboard: `q` and Control-C quit, `r` refreshes the token and `e` launches the
/// browser, in either case; no other key asks for anything.
pub proof fn law_keys_ask_for_actions(key: Key, ctrl: bool)
    ensures
        action_of(key, ctrl) == Some(UiAction::Quit) <==> key == Key::Char('q') || key
            == Key::Char('Q') || (key == Key::Char('c') && ctrl),
        action_of(key, ctrl) == Some(UiAction::RefreshToken) <==> key == Key::Char('r') || key
            == Key::Char('R'),
        action_of(key, ctrl) == Some(UiAction::LaunchEdge) <==> key == Key::Char('e') || key
            == Key::Char('E'),
{
}

/// The log scrolls by a line or by ten, in the direction of the key, and stays where it is at
/// either end; other keys do not scroll it.
pub proof fn law_keys_scroll_the_log(scroll: u16, key: Key)
    ensures
        scroll > 0 ==> scrolled(scroll, Key::Up) == scroll - 1,
        scrolled(0, Key::Up) == 0,
        scroll < 65535 ==> scrolled(scroll, Key::Down) == scroll + 1,
        scroll >= 10 ==> scrolled(scroll, Key::PageUp) == scroll - 10,
        scroll < 10 ==> scrolled(scroll, Key::PageUp) == 0,
        scroll <= 65525 ==> scrolled(scroll, Key::PageDown) == scroll + 10,
        0 <= scrolled(scroll, key) <= 65535,
        scrolled(scroll, Key::Char('k')) == scrolled(scroll, Key::Up),
        scrolled(scroll, Key::Char('j')) == scrolled(scroll, Key::Down),
        !(key is Up || key is Down || key is PageUp || key is PageDown || key == Key::Char('k')
            || key == Key::Char('j')) ==> scrolled(scroll, key) == scroll,
{
}

/// The log is followed by as many lines as were added, and stays where it is when none was.
pub proof fn law_log_is_followed(s: TuiState, added: int)
    requires
        0 <= added < 65536,
        s.scroll + added <= 65535,
    ensures
        followed(s, s.last_line_count + added) == s.scroll + added,
        added > 0 ==> followed(s, s.last_line_count - added) == s.scroll,
{
}

/// A text that fits stays as it is; one that does not is cut to the width, with its beginning kept
/// and an ellipsis at its end.
pub proof fn law_texts_are_cut_at_the_end(s: Seq<char>, max: int)
    requires
        max > 0,
    ensures
        s.len() <= max ==> shortened(s, max) == s,
        s.len() > max ==> {
            &&& shortened(s, max).len() == max
            &&& shortened(s, max).last() == '…'
            &&& forall|i: int| 0 <= i < max - 1 ==> #[trigger] shortened(s, max)[i] == s[i]
        },
{
}

/// A label is filled up with spaces behind it, to the width and no further.
pub proof fn law_labels_are_filled_up(s: Seq<char>, width: int)
    ensures
        s.len() >= width ==> padded(s, width) == s,
        s.len() < width ==> padded(s, width).len() == width,
        s.len() <= padded(s, width).len(),
        padded(s, width).take(s.len() as int) == s,
        forall|i: int|
            s.len() <= i < padded(s, width).len() ==> #[trigger] padded(s, width)[i] == ' ',
    decreases width - s.len(),
{
    if s.len() < width {
        let longer = s.push(' ');
        law_labels_are_filled_up(longer, width);
        let whole = padded(s, width);
        assert(whole.take(s.len() as int) =~= longer.take(s.len() as int)) by {
            assert forall|i: int| 0 <= i < s.len() implies whole[i] == longer[i] by {
                assert(whole.take(longer.len() as int)[i] == whole[i]);
            }
        }
        assert(longer.take(s.len() as int) =~= s);
        assert forall|i: int| s.len() <= i < whole.len() implies #[trigger] whole[i] == ' ' by {
            if i == s.len() {
                assert(whole.take(longer.len() as int)[i] == whole[i]);
            }
        }
    } else {
        assert(s.take(s.len() as int) =~= s);
    }
}

/// The log is shown from where it is scrolled to, line by line, as far as there is room and there
/// are lines.
pub proof fn law_window_shows_consecutive_lines(
    lines: Seq<logging::LineView>,
    scroll: int,
    height: int,
    i: int,
)
    requires
        scroll >= 0,
        height >= 0,
    ensures
        window(lines, scroll, height).len() <= height,
        scroll >= lines.len() ==> window(lines, scroll, height).len() == 0,
        scroll < lines.len() ==> window(lines, scroll, height).len() == if lines.len() - scroll
            < height {
            lines.len() - scroll
        } else {
            height
        },
        0 <= i < window(lines, scroll, height).len() ==> window(lines, scroll, height)[i]
            == lines[scroll + i],
{
}

/// The status that is shown says how long a valid token lasts, and of another what is wrong with
/// it; beside it stand the phase, the address and the model.
pub proof fn law_status_lines_tell_the_state(
    phase: ServicePhase,
    listen_addr: Seq<char>,
    c: config::ConfigView,
    status: token_store::StatusView,
)
    ensures
        ({
            let lines = status_texts(phase, listen_addr, c, status);
            &&& lines.len() == 6
            &&& lines[0] == runtime_status::phase_label(phase)
            &&& lines[1] == "http://"@ + listen_addr
            &&& lines[2] == c.token.model_alias
            &&& status.valid ==> lines[3] == "valid · "@ + text::signed_decimal(
                status.seconds_remaining as int,
            ) + "s remaining"@
            &&& !status.valid ==> (status.error matches Some(message) ==> lines[3] == message)
            &&& !status.valid && status.error is None ==> lines[3] == "missing or expired"@
            &&& text::begins_with(lines[4], "CDP :"@ + text::decimal(c.edge.cdp_port as int))
            &&& lines[5] == if c.ui.tray {
                "on"@
            } else {
                "off"@
            }
        }),
{
    let line = browser_text(c);
    let start = "CDP :"@ + text::decimal(c.edge.cdp_port as int);
    assert(line.take(start.len() as int) =~= start);
}

/// A line of the log has the colour of its level, whatever the case of its letters.
pub proof fn law_levels_have_their_colours(level: Seq<char>)
    ensures
        level_tone(level) is Red <==> text::upper(level) == "ERROR"@,
        level_tone(level) is Yellow <==> text::upper(level) == "WARN"@ || text::upper(level)
            == "WARNING"@,
        level_tone(level) is Cyan <==> text::upper(level) == "INFO"@,
        level_tone(level) is DarkGray <==> text::upper(level) == "DEBUG"@ || text::upper(level)
            == "TRACE"@,
        !(level_tone(level) is Green),
{
    reveal_strlit("ERROR");
    reveal_strlit("WARN");
    reveal_strlit("WARNING");
    reveal_strlit("INFO");
    reveal_strlit("DEBUG");
    reveal_strlit("TRACE");
    assert("ERROR"@.len() == 5 && "WARN"@.len() == 4 && "WARNING"@.len() == 7);
    assert("INFO"@.len() == 4 && "DEBUG"@.len() == 5 && "TRACE"@.len() == 5);
    assert("ERROR"@[0] == 'E' && "WARN"@[0] == 'W' && "INFO"@[0] == 'I');
    assert("DEBUG"@[0] == 'D' && "TRACE"@[0] == 'T');
}

} // verus!
