//! An in-process log: messages are queued in a sink that its owner hands around,
//! then read once as new and kept for later display.
use vstd::prelude::*;
use std::time::Instant;

verus! {

/// std's `Instant`, carried opaquely as the time a message was recorded.
#[verifier::external_type_specification]
#[verifier::external_body]
pub struct ExInstant(Instant);

/// Relies on `Instant::now`: the time at which a message is recorded. Nothing is
/// promised of its value.
#[verifier::external_body]
fn now() -> Instant {
    Instant::now()
}

/// The text of a message.
#[derive(Debug)]
pub enum Log {
    Str(&'static str),
    String(String),
}

impl Log {
    /// The characters of the message.
    pub open spec fn text(&self) -> Seq<char> {
        match self {
            Log::Str(s) => s@,
            Log::String(s) => s@,
        }
    }

    /// The characters of the message.
    pub fn as_str(&self) -> (r: &str)
        ensures
            r@ == self.text(),
    {
        match self {
            Log::Str(s) => s,
            Log::String(s) => s.as_str(),
        }
    }
}

impl Clone for Log {
    fn clone(&self) -> (r: Self)
        ensures
            r == *self,
    {
        match self {
            Log::Str(s) => Log::Str(s),
            Log::String(s) => Log::String(s.clone()),
        }
    }
}

impl From<String> for Log {
    fn from(value: String) -> (r: Self)
        ensures
            r == Log::String(value),
    {
        Log::String(value)
    }
}

impl vstd::std_specs::convert::FromSpecImpl<String> for Log {
    open spec fn obeys_from_spec() -> bool {
        true
    }

    open spec fn from_spec(v: String) -> Log {
        Log::String(v)
    }
}

impl From<&'static str> for Log {
    fn from(value: &'static str) -> (r: Self)
        ensures
            r == Log::Str(value),
    {
        Log::Str(value)
    }
}

impl vstd::std_specs::convert::FromSpecImpl<&'static str> for Log {
    open spec fn obeys_from_spec() -> bool {
        true
    }

    open spec fn from_spec(v: &'static str) -> Log {
        Log::Str(v)
    }
}

/// How serious a message is.
#[derive(Debug, Clone, Copy, PartialEq, Eq, Structural)]
pub enum LogLevel {
    Log,
    Warn,
    Unexpected,
    Error,
    Info,
}

/// Which part of the program a message comes from.
#[derive(Debug, Clone, Copy, PartialEq, Eq, Structural)]
pub enum LogSource {
    Renderer,
    Interface,
    GameLogic,
    Main,
    Other,
}

/// The part of the program that a source number names: 0 main, 1 renderer,
/// 2 game logic, 3 interface, anything else none.
pub open spec fn source_of(source_int: u32) -> LogSource {
    if source_int == 0 {
        LogSource::Main
    } else if source_int == 1 {
        LogSource::Renderer
    } else if source_int == 2 {
        LogSource::GameLogic
    } else if source_int == 3 {
        LogSource::Interface
    } else {
        LogSource::Other
    }
}

/// The prefix that a source is displayed with.
pub open spec fn label_of(source: LogSource) -> Seq<char> {
    match source {
        LogSource::Main => "[Main]"@,
        LogSource::Interface => "[Interface]"@,
        LogSource::GameLogic => "[Game Logic]"@,
        LogSource::Renderer => "[Renderer]"@,
        LogSource::Other => ""@,
    }
}

impl LogSource {
    /// The prefix that this source is displayed with.
    pub fn label(&self) -> (r: &'static str)
        ensures
            r@ == label_of(*self),
    {
        match self {
            LogSource::Main => "[Main]",
            LogSource::Interface => "[Interface]",
            LogSource::GameLogic => "[Game Logic]",
            LogSource::Renderer => "[Renderer]",
            LogSource::Other => "",
        }
    }
}

/// A recorded message: its level, text, source and the time it was recorded.
#[derive(Debug)]
pub struct LogEnveloppe {
    level: LogLevel,
    log: Log,
    source: LogSource,
    time: Instant,
}

impl Clone for LogEnveloppe {
    fn clone(&self) -> (r: Self)
        ensures
            r == *self,
    {
        LogEnveloppe { level: self.level, log: self.log.clone(), source: self.source, time: self.time }
    }
}

impl LogEnveloppe {
    /// The level of the message.
    pub closed spec fn level_spec(&self) -> LogLevel {
        self.level
    }

    /// The source of the message.
    pub closed spec fn source_spec(&self) -> LogSource {
        self.source
    }

    /// The message itself.
    pub closed spec fn log_spec(&self) -> Log {
        self.log
    }

    /// Records a message now, from the source that `source_int` names.
    pub fn new(level: LogLevel, source_int: u32, log: Log) -> (r: LogEnveloppe)
        ensures
            r.level_spec() == level,
            r.source_spec() == source_of(source_int),
            r.log_spec() == log,
    {
        let source = match source_int {
            0 => LogSource::Main,
            1 => LogSource::Renderer,
            2 => LogSource::GameLogic,
            3 => LogSource::Interface,
            _ => LogSource::Other,
        };
        LogEnveloppe { level, log, source, time: now() }
    }

    /// The level of the message.
    pub fn level(&self) -> (r: LogLevel)
        ensures
            r == self.level_spec(),
    {
        self.level
    }

    /// The source of the message.
    pub fn source(&self) -> (r: LogSource)
        ensures
            r == self.source_spec(),
    {
        self.source
    }

    /// The message itself.
    pub fn log(&self) -> (r: &Log)
        ensures
            *r == self.log_spec(),
    {
        &self.log
    }
}

/// The sink that messages are written into: the messages not read yet, and those
/// already read, oldest first.
pub struct Logger {
    new_logs: Vec<LogEnveloppe>,
    logs: Vec<LogEnveloppe>,
}

impl Logger {
    /// Messages written and not read yet, oldest first.
    pub closed spec fn pending(&self) -> Seq<LogEnveloppe> {
        self.new_logs@
    }

    /// Messages already read, oldest first.
    pub closed spec fn history(&self) -> Seq<LogEnveloppe> {
        self.logs@
    }

    /// An empty sink.
    pub fn new() -> (r: Logger)
        ensures
            r.pending() == Seq::<LogEnveloppe>::empty(),
            r.history() == Seq::<LogEnveloppe>::empty(),
    {
        Logger { new_logs: Vec::new(), logs: Vec::new() }
    }
}

/// The sink after one more message of `level`, from `source`, with text `log`.
pub open spec fn written(old_sink: Logger, new_sink: Logger, level: LogLevel, source: u32, log: Log) -> bool {
    &&& new_sink.history() == old_sink.history()
    &&& new_sink.pending().len() == old_sink.pending().len() + 1
    &&& new_sink.pending().drop_last() == old_sink.pending()
    &&& new_sink.pending().last().level_spec() == level
    &&& new_sink.pending().last().source_spec() == source_of(source)
    &&& new_sink.pending().last().log_spec() == log
}

fn push_log(sink: &mut Logger, level: LogLevel, source: u32, log: Log)
    ensures
        written(*old(sink), *final(sink), level, source, log),
{
    sink.new_logs.push(LogEnveloppe::new(level, source, log));
    assert(sink.pending().drop_last() =~= old(sink).pending());
}

/// Writes a plain log message. Sources: 0 main, 1 renderer, 2 game logic,
/// 3 interface, 4 asteroids.
pub fn log<L>(sink: &mut Logger, source: u32, log: L)
    where
        L: Into<Log>,
    ensures
        exists|m: Log| call_ensures(L::into, (log,), m) && written(*old(sink), *final(sink), LogLevel::Log, source, m),
{
    let m: Log = log.into();
    push_log(sink, LogLevel::Log, source, m);
}

/// Writes a warning. Sources: 0 main, 1 renderer, 2 game logic, 3 interface,
/// 4 asteroids.
pub fn warn<L>(sink: &mut Logger, source: u32, log: L)
    where
        L: Into<Log>,
    ensures
        exists|m: Log| call_ensures(L::into, (log,), m) && written(*old(sink), *final(sink), LogLevel::Warn, source, m),
{
    let m: Log = log.into();
    push_log(sink, LogLevel::Warn, source, m);
}

/// Writes a message about something that should not have happened. Sources:
/// 0 main, 1 renderer, 2 game logic, 3 interface, 4 asteroids.
pub fn unexpected<L>(sink: &mut Logger, source: u32, log: L)
    where
        L: Into<Log>,
    ensures
        exists|m: Log| call_ensures(L::into, (log,), m) && written(*old(sink), *final(sink), LogLevel::Unexpected, source, m),
{
    let m: Log = log.into();
    push_log(sink, LogLevel::Unexpected, source, m);
}

/// Writes an error. Sources: 0 main, 1 renderer, 2 game logic, 3 interface,
/// 4 asteroids.
pub fn error<L>(sink: &mut Logger, source: u32, log: L)
    where
        L: Into<Log>,
    ensures
        exists|m: Log| call_ensures(L::into, (log,), m) && written(*old(sink), *final(sink), LogLevel::Error, source, m),
{
    let m: Log = log.into();
    push_log(sink, LogLevel::Error, source, m);
}

/// Writes an informative message. Sources: 0 main, 1 renderer, 2 game logic,
/// 3 interface, 4 asteroids.
pub fn info<L>(sink: &mut Logger, source: u32, log: L)
    where
        L: Into<Log>,
    ensures
        exists|m: Log| call_ensures(L::into, (log,), m) && written(*old(sink), *final(sink), LogLevel::Info, source, m),
{
    let m: Log = log.into();
    push_log(sink, LogLevel::Info, source, m);
}

fn clone_all(v: &Vec<LogEnveloppe>) -> (r: Vec<LogEnveloppe>)
    ensures
        r@ == v@,
{
    let mut r: Vec<LogEnveloppe> = Vec::new();
    let mut i: usize = 0;
    while i < v.len()
        invariant
            i <= v@.len(),
            r@ == v@.take(i as int),
        decreases v@.len() - i,
    {
        r.push(v[i].clone());
        assert(r@ =~= v@.take(i + 1));
        i = i + 1;
    }
    assert(r@ =~= v@);
    r
}

/// Hands out the messages not read yet, oldest first, and keeps them as read.
pub fn read_new_logs(sink: &mut Logger) -> (r: Vec<LogEnveloppe>)
    ensures
        r@ == old(sink).pending(),
        final(sink).pending() == Seq::<LogEnveloppe>::empty(),
        final(sink).history() == old(sink).history() + old(sink).pending(),
{
    let mut new_logs: Vec<LogEnveloppe> = Vec::new();
    std::mem::swap(&mut sink.new_logs, &mut new_logs);
    let mut copies = clone_all(&new_logs);
    sink.logs.append(&mut copies);
    new_logs
}

/// Every message read so far, oldest first.
pub fn read_logs(sink: &Logger) -> (r: Vec<LogEnveloppe>)
    ensures
        r@ == sink.history(),
{
    clone_all(&sink.logs)
}

/// Which levels and sources a log window shows.
pub struct UiLogger {
    info_enabled: bool,
    log_enabled: bool,
    warn_enabled: bool,
    unexpected_enabled: bool,
    error_enabled: bool,
    main_enabled: bool,
    renderer_enabled: bool,
    game_logic_enabled: bool,
    interface_enabled: bool,
    other_enabled: bool,
}

impl UiLogger {
    /// Whether the level filter lets `level` through. Errors follow the warning
    /// switch, not their own.
    pub closed spec fn level_shown(&self, level: LogLevel) -> bool {
        match level {
            LogLevel::Info => self.info_enabled,
            LogLevel::Log => self.log_enabled,
            LogLevel::Unexpected => self.unexpected_enabled,
            LogLevel::Warn => self.warn_enabled,
            LogLevel::Error => self.warn_enabled,
        }
    }

    /// Whether the source filter lets `source` through.
    pub closed spec fn source_shown(&self, source: LogSource) -> bool {
        match source {
            LogSource::Main => self.main_enabled,
            LogSource::Renderer => self.renderer_enabled,
            LogSource::GameLogic => self.game_logic_enabled,
            LogSource::Interface => self.interface_enabled,
            LogSource::Other => self.other_enabled,
        }
    }

    /// A filter that shows every level and every source.
    pub fn new() -> (r: UiLogger)
        ensures
            forall|l: LogLevel| r.level_shown(l),
            forall|s: LogSource| r.source_shown(s),
    {
        UiLogger {
            info_enabled: true,
            log_enabled: true,
            warn_enabled: true,
            unexpected_enabled: true,
            error_enabled: true,
            main_enabled: true,
            renderer_enabled: true,
            game_logic_enabled: true,
            interface_enabled: true,
            other_enabled: true,
        }
    }

    /// Whether a message passes both the level and the source filter.
    pub fn shows(&self, e: &LogEnveloppe) -> (r: bool)
        ensures
            r == (self.level_shown(e.level_spec()) && self.source_shown(e.source_spec())),
    {
        let level_ok = match e.level() {
            LogLevel::Info => self.info_enabled,
            LogLevel::Log => self.log_enabled,
            LogLevel::Unexpected => self.unexpected_enabled,
            LogLevel::Warn => self.warn_enabled,
            LogLevel::Error => self.warn_enabled,
        };
        let source_ok = match e.source() {
            LogSource::Main => self.main_enabled,
            LogSource::Renderer => self.renderer_enabled,
            LogSource::GameLogic => self.game_logic_enabled,
            LogSource::Interface => self.interface_enabled,
            LogSource::Other => self.other_enabled,
        };
        level_ok && source_ok
    }
}

} // verus!
