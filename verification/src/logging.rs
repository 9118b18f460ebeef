//! The log as the dashboard shows it: which events are kept, and how each reads.
use std::collections::VecDeque;

use vstd::prelude::*;
use vstd::string::*;

use crate::text::{self, chars_of, contains_text, same_text, starts_with};

verus! {

/// How many lines are kept.
pub const LOG_BUFFER_CAPACITY: usize = 200;

/// A line of the log.
#[derive(Debug, Clone)]
pub struct LogLine {
    pub level: String,
    pub message: String,
}

/// A line of the log.
pub struct LineView {
    pub level: Seq<char>,
    pub message: Seq<char>,
}

impl View for LogLine {
    type V = LineView;

    open spec fn view(&self) -> LineView {
        LineView { level: self.level@, message: self.message@ }
    }
}

/// The lines of a list.
pub open spec fn line_views(lines: Seq<LogLine>) -> Seq<LineView> {
    Seq::new(lines.len(), |i: int| lines[i]@)
}

/// The latest lines of the log; never more than there is room for.
pub struct LogBuffer {
    inner: VecDeque<LogLine>,
}

/// As many of the last lines as there is room for.
pub open spec fn latest(lines: Seq<LineView>) -> Seq<LineView> {
    if lines.len() <= LOG_BUFFER_CAPACITY {
        lines
    } else {
        lines.skip(lines.len() - LOG_BUFFER_CAPACITY)
    }
}

/// The lines with one more; where the buffer is full, the oldest goes.
pub open spec fn with_line(lines: Seq<LineView>, line: LineView) -> Seq<LineView> {
    if line.message.len() == 0 {
        lines
    } else if lines.len() >= LOG_BUFFER_CAPACITY {
        lines.drop_first().push(line)
    } else {
        lines.push(line)
    }
}

impl LogBuffer {
    #[verifier::type_invariant]
    spec fn within_capacity(self) -> bool {
        self.inner@.len() <= LOG_BUFFER_CAPACITY
    }

    /// The lines, the oldest first.
    pub closed spec fn view(self) -> Seq<LineView> {
        line_views(self.inner@)
    }

    /// An empty log.
    pub fn new() -> (buffer: Self)
        ensures
            buffer@ == Seq::<LineView>::empty(),
    {
        let buffer = LogBuffer { inner: VecDeque::new() };
        assert(buffer@ =~= Seq::<LineView>::empty());
        buffer
    }

    /// Keeps a line, unless it says nothing; where the buffer is full, the oldest goes.
    pub fn push(&mut self, level: &str, message: String)
        ensures
            final(self)@ == with_line(old(self)@, LineView { level: level@, message: message@ }),
            message@.len() > 0 ==> final(self)@ == latest(
                old(self)@.push(LineView { level: level@, message: message@ }),
            ),
            final(self)@.len() <= LOG_BUFFER_CAPACITY,
    {
        proof {
            use_type_invariant(&*self);
        }
        let ghost before = self@;
        assert(before.len() == self.inner@.len());
        if message.as_str().unicode_len() == 0 {
            return;
        }
        let mut inner: VecDeque<LogLine> = VecDeque::new();
        std::mem::swap(&mut inner, &mut self.inner);
        assert(line_views(inner@) == before);
        if inner.len() >= LOG_BUFFER_CAPACITY {
            let _ = inner.pop_front();
            assert(line_views(inner@) =~= before.drop_first());
        }
        let ghost kept = line_views(inner@);
        let line = LogLine { level: level.to_owned(), message };
        inner.push_back(line);
        assert(line_views(inner@) =~= kept.push(line@));
        assert(kept.push(line@) =~= latest(before.push(line@)));
        self.inner = inner;
    }

    /// The lines, the oldest first.
    pub fn lines(&self) -> (lines: Vec<LogLine>)
        ensures
            line_views(lines@) == self@,
            lines@.len() <= LOG_BUFFER_CAPACITY,
    {
        proof {
            use_type_invariant(self);
        }
        let mut lines: Vec<LogLine> = Vec::new();
        for i in 0..self.inner.len()
            invariant
                lines@.len() == i,
                forall|j: int| 0 <= j < i ==> (#[trigger] lines@[j])@ == self.inner@[j]@,
        {
            let line = &self.inner[i];
            lines.push(LogLine { level: line.level.clone(), message: line.message.clone() });
        }
        assert(line_views(lines@) =~= self@);
        lines
    }
}

impl Default for LogBuffer {
    fn default() -> (buffer: Self)
        ensures
            buffer@ == Seq::<LineView>::empty(),
    {
        LogBuffer::new()
    }
}

// ---------------------------------------------------------------------------------------------
// Events
// ---------------------------------------------------------------------------------------------

/// The level of an event.
#[derive(Debug, Clone, Copy, PartialEq, Eq, Structural)]
pub enum LogLevel {
    Error,
    Warn,
    Info,
    Debug,
    Trace,
}

/// How a level is called.
pub open spec fn level_name(level: LogLevel) -> Seq<char> {
    match level {
        LogLevel::Error => "ERROR"@,
        LogLevel::Warn => "WARN"@,
        LogLevel::Info => "INFO"@,
        LogLevel::Debug => "DEBUG"@,
        LogLevel::Trace => "TRACE"@,
    }
}

impl LogLevel {
    /// How the level is called.
    pub fn name(self) -> (name: &'static str)
        ensures
            name@ == level_name(self),
    {
        match self {
            LogLevel::Error => "ERROR",
            LogLevel::Warn => "WARN",
            LogLevel::Info => "INFO",
            LogLevel::Debug => "DEBUG",
            LogLevel::Trace => "TRACE",
        }
    }
}

/// What an event holds.
pub struct LogVisitor {
    pub message: String,
    pub method: Option<String>,
    pub uri: Option<String>,
    pub status: Option<String>,
    pub latency_ms: Option<String>,
}

/// What an event holds.
pub struct EventView {
    pub message: Seq<char>,
    pub method: Option<Seq<char>>,
    pub uri: Option<Seq<char>>,
    pub status: Option<Seq<char>>,
    pub latency_ms: Option<Seq<char>>,
}

impl View for LogVisitor {
    type V = EventView;

    open spec fn view(&self) -> EventView {
        EventView {
            message: self.message@,
            method: text::string_view(self.method),
            uri: text::string_view(self.uri),
            status: text::string_view(self.status),
            latency_ms: text::string_view(self.latency_ms),
        }
    }
}

/// An event that holds nothing.
pub open spec fn no_event() -> EventView {
    EventView { message: Seq::empty(), method: None, uri: None, status: None, latency_ms: None }
}

/// An event with one field more.
pub open spec fn with_field(e: EventView, name: Seq<char>, value: Seq<char>) -> EventView {
    if name == "message"@ {
        EventView { message: value, ..e }
    } else if name == "method"@ {
        EventView { method: Some(value), ..e }
    } else if name == "uri"@ {
        EventView { uri: Some(value), ..e }
    } else if name == "status"@ {
        EventView { status: Some(value), ..e }
    } else if name == "latency_ms"@ {
        EventView { latency_ms: Some(value), ..e }
    } else {
        e
    }
}

/// How an event reads: a request with its outcome, a request, or a message.
pub open spec fn event_text(e: EventView) -> Seq<char> {
    match (e.method, e.uri) {
        (Some(method), Some(uri)) => match (e.status, e.latency_ms) {
            (Some(status), Some(latency)) => method + " "@ + uri + " → "@ + status + " ("@ + latency
                + "ms)"@,
            _ => method + " "@ + uri,
        },
        _ => e.message,
    }
}

/// An event of a kind that is not kept: the close of a span, one of the HTTP machinery, or one
/// that says nothing.
pub open spec fn skipped(target: Seq<char>, e: EventView) -> bool {
    ||| text::occurs_in(e.message, "time.busy"@)
    ||| text::begins_with(e.message, "close,"@)
    ||| text::begins_with(target, "hyper"@)
    ||| text::begins_with(target, "h2"@)
    ||| e.message.len() == 0 && e.method is None
}

/// The lines after an event.
pub open spec fn after_event(
    lines: Seq<LineView>,
    level: LogLevel,
    target: Seq<char>,
    e: EventView,
) -> Seq<LineView> {
    if level is Debug || level is Trace || skipped(target, e) {
        lines
    } else {
        with_line(lines, LineView { level: level_name(level), message: event_text(e) })
    }
}

/// A text without the quotes around it.
pub open spec fn unquoted(s: Seq<char>) -> Seq<char>
    decreases s.len(),
{
    if s.len() > 0 && s[0] == '"' {
        unquoted(s.skip(1))
    } else {
        text::without_trailing(s, '"')
    }
}

/// A text without the quotes around it, as a field's value is kept.
pub fn unquote(s: &str) -> (bare: String)
    ensures
        bare@ == unquoted(s@),
{
    let chars = chars_of(s);
    let mut from: usize = 0;
    assert(s@.skip(0) =~= s@);
    while from < chars.len() && chars[from] == '"'
        invariant
            from <= chars@.len(),
            chars@ == s@,
            unquoted(s@) == unquoted(s@.skip(from as int)),
        decreases chars@.len() - from,
    {
        assert(s@.skip(from as int).skip(1) =~= s@.skip(from + 1));
        from = from + 1;
    }
    let rest = text::part_of(s, from, chars.len());
    assert(rest@ =~= s@.skip(from as int));
    text::trim_trailing(rest.as_str(), '"')
}

impl LogVisitor {
    /// An event that holds nothing.
    pub fn new() -> (visitor: Self)
        ensures
            visitor@ == no_event(),
    {
        LogVisitor { message: String::new(), method: None, uri: None, status: None, latency_ms: None }
    }

    /// Takes a field of the event.
    pub fn record_field(&mut self, name: &str, value: String)
        ensures
            final(self)@ == with_field(old(self)@, name@, value@),
    {
        if same_text(name, "message") {
            self.message = value;
        } else if same_text(name, "method") {
            self.method = Some(value);
        } else if same_text(name, "uri") {
            self.uri = Some(value);
        } else if same_text(name, "status") {
            self.status = Some(value);
        } else if same_text(name, "latency_ms") {
            self.latency_ms = Some(value);
        }
    }

    /// How the event reads.
    pub fn format(&self) -> (s: String)
        ensures
            s@ == event_text(self@),
    {
        if let (Some(method), Some(uri)) = (&self.method, &self.uri) {
            let mut s = method.clone();
            s.append(" ");
            s.append(uri.as_str());
            if let (Some(status), Some(latency)) = (&self.status, &self.latency_ms) {
                s.append(" → ");
                s.append(status.as_str());
                s.append(" (");
                s.append(latency.as_str());
                s.append("ms)");
            }
            return s;
        }
        self.message.clone()
    }
}

/// Whether an event is of a kind that is not kept.
pub fn should_skip_event(target: &str, visitor: &LogVisitor) -> (b: bool)
    ensures
        b == skipped(target@, visitor@),
{
    let message = visitor.message.as_str();
    contains_text(message, "time.busy") || starts_with(message, "close,") || starts_with(
        target,
        "hyper",
    ) || starts_with(target, "h2") || (message.unicode_len() == 0 && visitor.method.is_none())
}

impl LogBuffer {
    /// Takes an event; those below the level of information are not kept.
    pub fn on_event(&mut self, level: LogLevel, target: &str, visitor: &LogVisitor)
        ensures
            final(self)@ == after_event(old(self)@, level, target@, visitor@),
    {
        if matches!(level, LogLevel::Debug) || matches!(level, LogLevel::Trace) {
            return;
        }
        if should_skip_event(target, visitor) {
            return;
        }
        self.push(level.name(), visitor.format());
    }
}

/// A way to write the log.
#[derive(Debug, Clone, Copy, PartialEq, Eq, Structural)]
pub enum LogFormat {
    Json,
    Compact,
    Pretty,
}

/// The way to write the log that a setting names; any other word means the pretty one.
pub fn log_format(name: &str) -> (format: LogFormat)
    ensures
        format == if name@ == "json"@ {
            LogFormat::Json
        } else if name@ == "compact"@ {
            LogFormat::Compact
        } else {
            LogFormat::Pretty
        },
{
    if same_text(name, "json") {
        LogFormat::Json
    } else if same_text(name, "compact") {
        LogFormat::Compact
    } else {
        LogFormat::Pretty
    }
}

/// What the log begins with.
pub fn log_banner() -> (banner: &'static str)
    ensures
        banner@
            == "Microsoft 365 Copilot OpenAI Proxy — github.com/nizarfadlan/m365-copilot-proxy"@,
{
    "Microsoft 365 Copilot OpenAI Proxy — github.com/nizarfadlan/m365-copilot-proxy"
}

// ---------------------------------------------------------------------------------------------
// Laws
// ---------------------------------------------------------------------------------------------

/// The lines after a list of lines.
pub open spec fn with_all(lines: Seq<LineView>, more: Seq<LineView>) -> Seq<LineView>
    decreases more.len(),
{
    if more.len() == 0 {
        lines
    } else {
        with_line(with_all(lines, more.drop_last()), more.last())
    }
}

/// The lines that say something, in order.
pub open spec fn spoken(lines: Seq<LineView>) -> Seq<LineView>
    decreases lines.len(),
{
    if lines.len() == 0 {
        Seq::empty()
    } else if lines.last().message.len() == 0 {
        spoken(lines.drop_last())
    } else {
        spoken(lines.drop_last()).push(lines.last())
    }
}

/// A log that began empty holds the latest of the lines that say something, in order, as many as
/// it has room for.
pub proof fn law_log_holds_the_latest_lines(more: Seq<LineView>)
    ensures
        with_all(Seq::empty(), more) == latest(spoken(more)),
    decreases more.len(),
{
    if more.len() > 0 {
        let front = more.drop_last();
        law_log_holds_the_latest_lines(front);
        if more.last().message.len() > 0 {
            law_full_log_drops_the_oldest(spoken(front), more.last());
        }
    }
}

/// Keeping the latest of the lines and then one more is keeping the latest of them all.
pub proof fn law_full_log_drops_the_oldest(lines: Seq<LineView>, line: LineView)
    requires
        line.message.len() > 0,
    ensures
        with_line(latest(lines), line) == latest(lines.push(line)),
{
    assert(with_line(latest(lines), line) =~= latest(lines.push(line)));
}

/// A log that began empty never holds more lines than it has room for.
pub proof fn law_log_stays_bounded(more: Seq<LineView>)
    ensures
        with_all(Seq::empty(), more).len() <= LOG_BUFFER_CAPACITY,
{
    law_log_holds_the_latest_lines(more);
}

/// A field of an event is kept under its name, and no other field changes; fields of other names
/// are not kept.
pub proof fn law_fields_are_kept_by_name(e: EventView, name: Seq<char>, value: Seq<char>)
    ensures
        with_field(e, name, value).message == if name == "message"@ {
            value
        } else {
            e.message
        },
        with_field(e, name, value).method == if name == "method"@ {
            Some(value)
        } else {
            e.method
        },
        with_field(e, name, value).uri == if name == "uri"@ {
            Some(value)
        } else {
            e.uri
        },
        with_field(e, name, value).status == if name == "status"@ {
            Some(value)
        } else {
            e.status
        },
        with_field(e, name, value).latency_ms == if name == "latency_ms"@ {
            Some(value)
        } else {
            e.latency_ms
        },
{
    reveal_strlit("message");
    reveal_strlit("method");
    reveal_strlit("uri");
    reveal_strlit("status");
    reveal_strlit("latency_ms");
    assert("message"@.len() == 7 && "method"@.len() == 6 && "uri"@.len() == 3);
    assert("status"@.len() == 6 && "latency_ms"@.len() == 10);
    assert("method"@[0] == 'm' && "status"@[0] == 's');
}

/// An event reads as the request that it is, with the outcome where there is one, and else as its
/// message.
pub proof fn law_events_read_as_requests_or_messages(
    e: EventView,
    method: Seq<char>,
    uri: Seq<char>,
    status: Seq<char>,
    latency: Seq<char>,
)
    ensures
        e.method is None || e.uri is None ==> event_text(e) == e.message,
        e.method == Some(method) && e.uri == Some(uri) ==> text::begins_with(
            event_text(e),
            method + " "@ + uri,
        ),
        e.method == Some(method) && e.uri == Some(uri) && (e.status is None || e.latency_ms is None)
            ==> event_text(e) == method + " "@ + uri,
        e.method == Some(method) && e.uri == Some(uri) && e.status == Some(status) && e.latency_ms
            == Some(latency) ==> event_text(e) == method + " "@ + uri + " → "@ + status + " ("@
            + latency + "ms)"@,
{
    let start = method + " "@ + uri;
    if e.method == Some(method) && e.uri == Some(uri) {
        assert(event_text(e).take(start.len() as int) =~= start);
    }
}

/// An event of the levels of information and above is kept with its level and what it reads as,
/// behind those before it, unless it is noise or says nothing; others leave the log as it is.
pub proof fn law_events_are_kept_unless_noise(
    lines: Seq<LineView>,
    level: LogLevel,
    target: Seq<char>,
    e: EventView,
)
    requires
        lines.len() < LOG_BUFFER_CAPACITY,
    ensures
        ({
            let noise = text::occurs_in(e.message, "time.busy"@) || text::begins_with(
                e.message,
                "close,"@,
            ) || text::begins_with(target, "hyper"@) || text::begins_with(target, "h2"@);
            if level is Debug || level is Trace || noise || event_text(e).len() == 0 || (
            e.message.len() == 0 && e.method is None) {
                after_event(lines, level, target, e) == lines
            } else {
                &&& after_event(lines, level, target, e).len() == lines.len() + 1
                &&& after_event(lines, level, target, e).drop_last() == lines
                &&& after_event(lines, level, target, e).last().message == event_text(e)
                &&& after_event(lines, level, target, e).last().level == level_name(level)
            }
        }),
{
    let line = LineView { level: level_name(level), message: event_text(e) };
    assert(lines.push(line).drop_last() =~= lines);
}

/// A value loses the quotes at both ends, all of them, and nothing else.
pub proof fn law_quotes_at_the_ends_go(s: Seq<char>)
    ensures
        !(s.len() > 0 && (s[0] == '"' || s.last() == '"')) ==> unquoted(s) == s,
        unquoted(seq!['"'] + s) == unquoted(s),
        unquoted(s.push('"')) == unquoted(s),
    decreases s.len(),
{
    let quote = seq!['"'] + s;
    assert(quote.skip(1) =~= s);
    let longer = s.push('"');
    assert(longer.drop_last() =~= s);
    if s.len() > 0 && s[0] == '"' {
        assert(longer.skip(1) =~= s.skip(1).push('"'));
        law_quotes_at_the_ends_go(s.skip(1));
    } else if s.len() == 0 {
        assert(longer.skip(1) =~= s);
        reveal_with_fuel(unquoted, 2);
    }
}

/// An event of the levels that are kept adds one line behind the others, with its level and its
/// text, unless it is noise or has no text; where the log is full, the oldest line goes.
pub proof fn law_kept_event_adds_its_line(
    lines: Seq<LineView>,
    level: LogLevel,
    target: Seq<char>,
    e: EventView,
)
    requires
        lines.len() <= LOG_BUFFER_CAPACITY,
    ensures
        ({
            let after = after_event(lines, level, target, e);
            let kept = (level is Error || level is Warn || level is Info) && !skipped(target, e)
                && event_text(e).len() > 0;
            &&& !kept ==> after == lines
            &&& kept ==> after.len() > 0 && after.last().message == event_text(e)
            &&& kept && level is Error ==> after.last().level == "ERROR"@
            &&& kept && level is Warn ==> after.last().level == "WARN"@
            &&& kept && level is Info ==> after.last().level == "INFO"@
            &&& kept && lines.len() < LOG_BUFFER_CAPACITY ==> after.drop_last() == lines
            &&& kept && lines.len() == LOG_BUFFER_CAPACITY ==> after.drop_last() == lines.skip(1)
        }),
{
}

/// Levels have the names under which they are logged, and an event begins without anything.
pub proof fn law_levels_have_their_names()
    ensures
        level_name(LogLevel::Error) == "ERROR"@,
        level_name(LogLevel::Warn) == "WARN"@,
        level_name(LogLevel::Info) == "INFO"@,
        level_name(LogLevel::Debug) == "DEBUG"@,
        level_name(LogLevel::Trace) == "TRACE"@,
        no_event().message.len() == 0,
        no_event().method is None,
        no_event().uri is None,
        no_event().status is None,
        no_event().latency_ms is None,
{
}

} // verus!
