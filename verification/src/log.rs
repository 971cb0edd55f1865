//! Log events routed to the command log, and the token styling helpers used
//! inside log messages.
use vstd::prelude::*;
use owo_colors::OwoColorize;

verus! {

/// Severity of a log line.
#[derive(Clone, Copy, Debug, PartialEq, Eq, Structural)]
pub enum LogLevel {
    Info,
    Success,
    Warn,
    Error,
}

/// One entry of the command log.
#[derive(Debug, PartialEq, Eq)]
pub enum LogEvent {
    /// A command preface line such as "> agency ...".
    Command(String),
    /// A single log line that keeps its ANSI styling.
    Line { level: LogLevel, ansi: String },
}

/// ANSI foreground colors used by the tool.
#[derive(Clone, Copy, Debug, PartialEq, Eq)]
pub enum Tint {
    Red,
    Green,
    Yellow,
    Blue,
    Magenta,
    Cyan,
}

/// The SGR code that selects a foreground tint.
pub open spec fn tint_code(t: Tint) -> Seq<char> {
    match t {
        Tint::Red => seq!['3', '1'],
        Tint::Green => seq!['3', '2'],
        Tint::Yellow => seq!['3', '3'],
        Tint::Blue => seq!['3', '4'],
        Tint::Magenta => seq!['3', '5'],
        Tint::Cyan => seq!['3', '6'],
    }
}

/// The escape character.
pub open spec fn esc() -> char {
    '\x1b'
}

/// `s` written in tint `t`: the foreground code, the text, then the
/// foreground reset `ESC[39m`.
pub open spec fn tinted(t: Tint, s: Seq<char>) -> Seq<char> {
    seq![esc(), '['] + tint_code(t) + seq!['m'] + s + seq![esc(), '[', '3', '9', 'm']
}

/// `s` written dimmed: `ESC[2m`, the text, then the full reset `ESC[0m`.
pub open spec fn dimmed_text(s: Seq<char>) -> Seq<char> {
    seq![esc(), '[', '2', 'm'] + s + seq![esc(), '[', '0', 'm']
}

/// owo-colors `red`: its foreground display writes the color code,
/// the value, then `ESC[39m`.
#[verifier::external_body]
fn fg_red(s: &str) -> (r: String)
    ensures
        r@ == tinted(Tint::Red, s@),
{
    s.red().to_string()
}

/// owo-colors `green`: its foreground display writes the color code,
/// the value, then `ESC[39m`.
#[verifier::external_body]
fn fg_green(s: &str) -> (r: String)
    ensures
        r@ == tinted(Tint::Green, s@),
{
    s.green().to_string()
}

/// owo-colors `yellow`: its foreground display writes the color code,
/// the value, then `ESC[39m`.
#[verifier::external_body]
fn fg_yellow(s: &str) -> (r: String)
    ensures
        r@ == tinted(Tint::Yellow, s@),
{
    s.yellow().to_string()
}

/// owo-colors `blue`: its foreground display writes the color code,
/// the value, then `ESC[39m`.
#[verifier::external_body]
fn fg_blue(s: &str) -> (r: String)
    ensures
        r@ == tinted(Tint::Blue, s@),
{
    s.blue().to_string()
}

/// owo-colors `magenta`: its foreground display writes the color code,
/// the value, then `ESC[39m`.
#[verifier::external_body]
fn fg_magenta(s: &str) -> (r: String)
    ensures
        r@ == tinted(Tint::Magenta, s@),
{
    s.magenta().to_string()
}

/// owo-colors `cyan`: its foreground display writes the color code,
/// the value, then `ESC[39m`.
#[verifier::external_body]
fn fg_cyan(s: &str) -> (r: String)
    ensures
        r@ == tinted(Tint::Cyan, s@),
{
    s.cyan().to_string()
}

/// Renders `s` in foreground tint `t`.
pub fn tint(s: &str, t: Tint) -> (r: String)
    ensures
        r@ == tinted(t, s@),
{
    match t {
        Tint::Red => fg_red(s),
        Tint::Green => fg_green(s),
        Tint::Yellow => fg_yellow(s),
        Tint::Blue => fg_blue(s),
        Tint::Magenta => fg_magenta(s),
        Tint::Cyan => fg_cyan(s),
    }
}

/// Renders `s` dimmed through owo-colors; its dim display writes `ESC[2m`,
/// the value, then `ESC[0m`.
#[verifier::external_body]
pub(crate) fn dim(s: &str) -> (r: String)
    ensures
        r@ == dimmed_text(s@),
{
    s.dimmed().to_string()
}

/// Styles an id token (blue).
pub fn id(value: &str) -> (r: String)
    ensures
        r@ == tinted(Tint::Blue, value@),
{
    tint(value, Tint::Blue)
}

/// Styles a path token (cyan).
pub fn path(p: &str) -> (r: String)
    ensures
        r@ == tinted(Tint::Cyan, p@),
{
    tint(p, Tint::Cyan)
}

/// Styles a slug token (magenta).
pub fn slug(s: &str) -> (r: String)
    ensures
        r@ == tinted(Tint::Magenta, s@),
{
    tint(s, Tint::Magenta)
}

/// Styles a success message (green).
pub fn ok(s: &str) -> (r: String)
    ensures
        r@ == tinted(Tint::Green, s@),
{
    tint(s, Tint::Green)
}

/// Styles a warning message (yellow).
pub fn warn(s: &str) -> (r: String)
    ensures
        r@ == tinted(Tint::Yellow, s@),
{
    tint(s, Tint::Yellow)
}

/// Styles an error message (red).
pub fn err(s: &str) -> (r: String)
    ensures
        r@ == tinted(Tint::Red, s@),
{
    tint(s, Tint::Red)
}

/// The log line that a message of `level` becomes: info lines are kept as
/// written, success/warn/error lines are tinted whole.
pub open spec fn styled_line(level: LogLevel, text: Seq<char>) -> Seq<char> {
    match level {
        LogLevel::Info => text,
        LogLevel::Success => tinted(Tint::Green, text),
        LogLevel::Warn => tinted(Tint::Yellow, text),
        LogLevel::Error => tinted(Tint::Red, text),
    }
}

/// Builds the log event for a message at `level`, applying the level's tint.
pub fn line_event(level: LogLevel, text: &str) -> (ev: LogEvent)
    ensures
        ev matches LogEvent::Line { level: l, ansi } && l == level && ansi@ == styled_line(level, text@),
{
    let ansi = match level {
        LogLevel::Info => text.to_string(),
        LogLevel::Success => ok(text),
        LogLevel::Warn => warn(text),
        LogLevel::Error => err(text),
    };
    LogEvent::Line { level, ansi }
}

/// Where a log message goes.
#[derive(Debug, PartialEq, Eq)]
pub enum LogRoute {
    /// To the interface's log pane.
    Sink(LogEvent),
    /// Printed on standard output.
    Stdout(String),
    /// Printed on standard error.
    Stderr(String),
}

/// Routes a message at `level`: styled by its level, into the log pane when
/// one is registered, else printed (errors on standard error).
pub fn emit_route(level: LogLevel, text: &str, sink_set: bool) -> (r: LogRoute)
    ensures
        sink_set ==> (r matches LogRoute::Sink(LogEvent::Line { level: l, ansi }) && l == level && ansi@ == styled_line(level, text@)),
        !sink_set && level == LogLevel::Error ==> (r matches LogRoute::Stderr(t) && t@ == styled_line(level, text@)),
        !sink_set && level != LogLevel::Error ==> (r matches LogRoute::Stdout(t) && t@ == styled_line(level, text@)),
{
    let ev = line_event(level, text);
    if sink_set {
        return LogRoute::Sink(ev);
    }
    match ev {
        LogEvent::Line { level: l, ansi } => match l {
            LogLevel::Error => LogRoute::Stderr(ansi),
            _ => LogRoute::Stdout(ansi),
        },
        LogEvent::Command(c) => LogRoute::Stdout(c),
    }
}

} // verus!

