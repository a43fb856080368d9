//! Telemetry protocol types and message definitions.
//!
//! The protocol carries log messages, tracing messages (span lifecycle, events, links and
//! attributes) and time synchronisation messages, each tagged with the [`crate::id::ThreadId`]
//! it was recorded on. Every type here owns its data.
//!
//! The module also holds the [`ThreadId`]/[`ExecutionId`] pair used to name a thread of
//! execution by a bare thread number, with their text forms.

use vstd::prelude::*;
use crate::hexfmt::{
    fixed_hex, lemma_parse_hex_fixed, lemma_pow16_values, parse_hex, push_hex_fixed,
    ParseIntError,
};
use crate::id::{
    find_char, lemma_find_char_joined, parse_process_id, parse_span_id, process_id_text,
    u128_max, u64_max, ProcessId, SpanContext, SpanId,
};
use crate::hexfmt::lemma_fixed_hex_digits;
use crate::text::{chars_of, push_char};

verus! {

/// A process-unique id identifying a thread within a process.
#[derive(Copy, Clone, Debug, Eq, PartialEq, Ord, PartialOrd, Hash, Default, Structural)]
pub struct ThreadId(pub u64);

/// The text form of a bare thread id: 16 lower-case hex digits.
pub open spec fn bare_thread_id_text(t: ThreadId) -> Seq<char> {
    fixed_hex(t.0 as nat, 16)
}

impl ThreadId {
    /// Creates a [`ThreadId`] from a raw value.
    ///
    /// Extra care needs to be taken that this is not a constant value or re-used within this
    /// process in any way.
    pub fn from_raw(raw: u64) -> (r: Self)
        ensures
            r.0 == raw,
    {
        ThreadId(raw)
    }

    /// Renders the id as 16 lower-case hex digits.
    pub fn to_string(&self) -> (r: String)
        ensures
            r@ == bare_thread_id_text(*self),
    {
        let mut out = String::new();
        push_hex_fixed(&mut out, self.0 as u128, 16);
        out
    }

    /// Parses a thread id written in hex (as `u64::from_str_radix(s, 16)` does).
    pub fn from_str(s: &str) -> (r: Result<Self, ParseIntError>)
        ensures
            match r {
                Ok(t) => parse_span_id(s@) == Ok::<u64, ParseIntError>(t.0),
                Err(e) => parse_span_id(s@) == Err::<u64, ParseIntError>(e),
            },
    {
        let chars = chars_of(s);
        assert(chars@.subrange(0, chars@.len() as int) =~= chars@);
        match parse_hex(&chars, 0, chars.len(), u64::MAX as u128) {
            Ok(v) => Ok(ThreadId(v as u64)),
            Err(e) => Err(e),
        }
    }
}

/// A globally-unique id identifying a thread of execution.
#[derive(Copy, Clone, Debug, Eq, PartialEq, Hash, Default, Structural)]
pub struct ExecutionId {
    /// The globally-unique id for the process this thread is within.
    pub process: ProcessId,
    /// The process-unique id for this thread within the process.
    pub thread: ThreadId,
}

/// The text form of an execution id: `process:thread`.
pub open spec fn execution_id_text(e: ExecutionId) -> Seq<char> {
    process_id_text(e.process) + seq![':'] + bare_thread_id_text(e.thread)
}

/// Errors that can occur while parsing [`ExecutionId`] from a string.
#[derive(Clone, Copy, Debug, PartialEq, Eq, Structural)]
pub enum ParseExecutionIdError {
    /// The string is missing a `:` separator.
    MissingSeparator,
    /// The embedded [`ProcessId`] failed to parse.
    InvalidProcessId(ParseIntError),
    /// The embedded [`ThreadId`] failed to parse.
    InvalidThreadId(ParseIntError),
}

impl ParseExecutionIdError {
    /// The message of this error.
    pub fn to_string(&self) -> (r: &'static str)
        ensures
            r@ == match *self {
                ParseExecutionIdError::MissingSeparator => "missing ':' separator"@,
                ParseExecutionIdError::InvalidProcessId(_) => "failed to parse process id"@,
                ParseExecutionIdError::InvalidThreadId(_) => "failed to parse thread id"@,
            },
    {
        match self {
            ParseExecutionIdError::MissingSeparator => "missing ':' separator",
            ParseExecutionIdError::InvalidProcessId(_) => "failed to parse process id",
            ParseExecutionIdError::InvalidThreadId(_) => "failed to parse thread id",
        }
    }

    /// The underlying integer parse error, if any.
    pub fn source(&self) -> (r: Option<ParseIntError>)
        ensures
            r == match *self {
                ParseExecutionIdError::InvalidProcessId(e) => Some(e),
                ParseExecutionIdError::InvalidThreadId(e) => Some(e),
                _ => None::<ParseIntError>,
            },
    {
        match self {
            ParseExecutionIdError::InvalidProcessId(e) => Some(*e),
            ParseExecutionIdError::InvalidThreadId(e) => Some(*e),
            _ => None,
        }
    }
}

/// The result of parsing an execution id from text: process and thread numbers, or the error.
pub open spec fn parse_execution_id(s: Seq<char>) -> Result<(u128, u64), ParseExecutionIdError> {
    match find_char(s, ':') {
        None => Err(ParseExecutionIdError::MissingSeparator),
        Some(i) => match parse_process_id(s.take(i as int)) {
            Err(e) => Err(ParseExecutionIdError::InvalidProcessId(e)),
            Ok(p) => match parse_span_id(s.skip((i + 1) as int)) {
                Err(e) => Err(ParseExecutionIdError::InvalidThreadId(e)),
                Ok(t) => Ok((p, t)),
            },
        },
    }
}

/// Finds the first `:` in `s`.
fn find_colon(s: &Vec<char>) -> (r: Option<usize>)
    ensures
        match r {
            Some(i) => find_char(s@, ':') == Some(i as nat) && i < s.len(),
            None => find_char(s@, ':') is None,
        },
{
    let mut i: usize = 0;
    while i < s.len()
        invariant
            i <= s.len(),
            forall|j: int| 0 <= j < i ==> s@[j] != ':',
        decreases s.len() - i,
    {
        if s[i] == ':' {
            proof {
                lemma_find_char_joined(s@.take(i as int), ':', s@.skip(i + 1));
                assert(s@.take(i as int) + seq![':'] + s@.skip(i + 1) =~= s@);
            }
            return Some(i);
        }
        i = i + 1;
    }
    proof {
        lemma_find_none(s@);
    }
    None
}

proof fn lemma_find_none(s: Seq<char>)
    requires
        forall|j: int| 0 <= j < s.len() ==> s[j] != ':',
    ensures
        find_char(s, ':') is None,
    decreases s.len(),
{
    if s.len() > 0 {
        lemma_find_none(s.drop_first());
    }
}

impl ExecutionId {
    /// Renders the id as `process:thread` in lower-case hex (32 and 16 digits).
    pub fn to_string(&self) -> (r: String)
        ensures
            r@ == execution_id_text(*self),
    {
        let mut out = self.process.to_string();
        push_char(&mut out, ':');
        push_hex_fixed(&mut out, self.thread.0 as u128, 16);
        out
    }

    /// Parses an execution id written as `process:thread` in hex.
    pub fn from_str(s: &str) -> (r: Result<Self, ParseExecutionIdError>)
        ensures
            match r {
                Ok(e) => parse_execution_id(s@) == Ok::<(u128, u64), ParseExecutionIdError>(
                    (e.process@, e.thread.0),
                ),
                Err(e) => parse_execution_id(s@) == Err::<(u128, u64), ParseExecutionIdError>(e),
            },
    {
        let chars = chars_of(s);
        let sep = match find_colon(&chars) {
            None => return Err(ParseExecutionIdError::MissingSeparator),
            Some(i) => i,
        };
        proof {
            assert(chars@.subrange(0, sep as int) =~= chars@.take(sep as int));
            assert(chars@.subrange(sep + 1, chars@.len() as int) =~= chars@.skip(sep + 1));
        }
        let process = match parse_hex(&chars, 0, sep, u128::MAX) {
            Ok(v) => v,
            Err(e) => return Err(ParseExecutionIdError::InvalidProcessId(e)),
        };
        let thread = match parse_hex(&chars, sep + 1, chars.len(), u64::MAX as u128) {
            Ok(v) => v as u64,
            Err(e) => return Err(ParseExecutionIdError::InvalidThreadId(e)),
        };
        Ok(ExecutionId { process: ProcessId::from_raw(process), thread: ThreadId(thread) })
    }
}

/// Parsing the text form of a bare thread id gives the id back.
pub proof fn lemma_bare_thread_id_text_roundtrip(t: ThreadId)
    ensures
        parse_span_id(bare_thread_id_text(t)) == Ok::<u64, ParseIntError>(t.0),
{
    lemma_pow16_values();
    lemma_parse_hex_fixed(t.0 as nat, 16, u64_max());
}

/// Parsing the text form of an execution id gives the id back.
pub proof fn lemma_execution_id_text_roundtrip(e: ExecutionId)
    ensures
        parse_execution_id(execution_id_text(e)) == Ok::<(u128, u64), ParseExecutionIdError>(
            (e.process@, e.thread.0),
        ),
{
    let a = fixed_hex(e.process@ as nat, 32);
    let b = fixed_hex(e.thread.0 as nat, 16);
    let s = a + seq![':'] + b;
    lemma_fixed_hex_digits(e.process@ as nat, 32);
    lemma_fixed_hex_digits(e.thread.0 as nat, 16);
    lemma_find_char_joined(a, ':', b);
    assert(s.take(32) =~= a);
    assert(s.skip(33) =~= b);
    lemma_pow16_values();
    lemma_parse_hex_fixed(e.process@ as nat, 32, u128_max());
    lemma_parse_hex_fixed(e.thread.0 as nat, 16, u64_max());
}

/// Log message severity levels, ordered from most verbose to most critical.
#[derive(Copy, Clone, Debug, Eq, PartialEq, Hash, Structural)]
pub enum Severity {
    /// Very low priority, often extremely verbose, information.
    Trace,
    /// Lower priority information.
    Debug,
    /// Useful information.
    Info,
    /// Hazardous situations.
    Warn,
    /// Very serious errors.
    Error,
    /// Critical failures that might crash the program.
    Fatal,
}

/// A value that can be stored in a telemetry attribute.
#[derive(Debug)]
pub enum Value {
    /// A string value.
    String(String),
    /// A boolean value.
    Bool(bool),
    /// A 64-bit signed integer.
    I64(i64),
    /// A 64-bit floating-point number, held as its IEEE-754 bit pattern (`f64::to_bits`).
    F64(u64),
}

impl Clone for Value {
    fn clone(&self) -> (r: Self)
        ensures
            r == *self,
    {
        match self {
            Value::String(s) => Value::String(s.clone()),
            Value::Bool(b) => Value::Bool(*b),
            Value::I64(i) => Value::I64(*i),
            Value::F64(f) => Value::F64(*f),
        }
    }
}

/// A key-value attribute pair used in telemetry data.
#[derive(Debug)]
pub struct KeyValue {
    /// The attribute key (name).
    pub key: String,
    /// The attribute value.
    pub value: Value,
}

impl Clone for KeyValue {
    fn clone(&self) -> (r: Self)
        ensures
            r == *self,
    {
        KeyValue { key: self.key.clone(), value: self.value.clone() }
    }
}

impl KeyValue {
    /// Creates a new key-value attribute pair.
    pub fn new(key: String, value: Value) -> (r: Self)
        ensures
            r.key == key,
            r.value == value,
    {
        KeyValue { key, value }
    }
}

/// A structured log message with severity, timestamp, and attributes.
#[derive(Clone, Debug)]
pub struct LogMessage {
    /// The span this log was recorded in, if any.
    pub span_id: Option<SpanId>,
    /// Timestamp in nanoseconds since Unix epoch (or system start).
    pub time_unix_nano: u64,
    /// The severity level of this log message.
    pub severity: Severity,
    /// The message body.
    pub body: String,
    /// Key-value attributes providing additional context.
    pub attributes: Vec<KeyValue>,
}

/// A time synchronization message for coordinating clocks between systems.
#[derive(Clone, Copy, Debug)]
pub struct TimeSyncMessage {
    /// Local timestamp in system-specific units.
    pub local_timestamp: u64,
    /// Time since Unix epoch in nanoseconds.
    pub since_epoch: u64,
}

/// Message indicating the creation of a new span.
#[derive(Clone, Debug)]
pub struct SpanCreateMessage {
    /// The unique identifier (within the associated process) for this span.
    pub span_id: SpanId,
    /// The span that was current when this one was created, if any.
    pub parent_span_id: Option<SpanId>,
    /// The name of the span.
    pub name: String,
    /// Timestamp when the span was started.
    pub start_time_unix_nano: u64,
    /// Initial attributes attached to the span.
    pub attributes: Vec<KeyValue>,
}

/// Message indicating a span has been entered.
#[derive(Copy, Clone, Debug)]
pub struct SpanEnterMessage {
    /// The span being entered.
    pub span_id: SpanId,
    /// Timestamp when the span was entered.
    pub time_unix_nano: u64,
}

/// Message indicating a span has been exited.
#[derive(Copy, Clone, Debug)]
pub struct SpanExitMessage {
    /// The span being exited.
    pub span_id: SpanId,
    /// Timestamp when the span was exited.
    pub time_unix_nano: u64,
}

/// Message indicating a span has been closed (completed).
#[derive(Copy, Clone, Debug)]
pub struct SpanCloseMessage {
    /// The span being closed.
    pub span_id: SpanId,
    /// Timestamp when the span was closed.
    pub end_time_unix_nano: u64,
}

/// Message indicating an attribute has been set on a span.
#[derive(Clone, Debug)]
pub struct SpanSetAttributeMessage {
    /// The span the attribute is set on; `None` means the current span, as tracking the
    /// enter and exit messages of the sending thread determines it.
    pub span_id: Option<SpanId>,
    /// The attribute being set.
    pub attribute: KeyValue,
}

/// Message indicating an event has been added to a span.
#[derive(Clone, Debug)]
pub struct SpanAddEventMessage {
    /// The span the event is added to; `None` means the current span, as tracking the enter
    /// and exit messages of the sending thread determines it.
    pub span_id: Option<SpanId>,
    /// The name of the event.
    pub name: String,
    /// Timestamp when the event occurred.
    pub time_unix_nano: u64,
    /// Attributes providing additional context for the event.
    pub attributes: Vec<KeyValue>,
}

/// Message indicating a link has been added to a span.
#[derive(Copy, Clone, Debug)]
pub struct SpanAddLinkMessage {
    /// The span the link is added to; `None` means the current span, as tracking the enter
    /// and exit messages of the sending thread determines it.
    pub span_id: Option<SpanId>,
    /// The span context being linked to.
    pub link: SpanContext,
}

/// Messages related to distributed tracing operations.
#[derive(Clone, Debug)]
pub enum TracingMessage {
    /// A new span has been created.
    CreateSpan(SpanCreateMessage),
    /// A span has been entered (made current).
    EnterSpan(SpanEnterMessage),
    /// A span has been exited (no longer current).
    ExitSpan(SpanExitMessage),
    /// A span has been closed (completed).
    CloseSpan(SpanCloseMessage),
    /// An event has been added to a span.
    AddEvent(SpanAddEventMessage),
    /// A link has been added to a span.
    AddLink(SpanAddLinkMessage),
    /// An attribute has been set on a span.
    SetAttribute(SpanSetAttributeMessage),
}

/// An enumeration of all possible telemetry message types.
#[derive(Clone, Debug)]
pub enum TelemetryMessage {
    /// A structured log message with severity and attributes.
    Log(LogMessage),
    /// A time synchronization message for clock coordination.
    TimeSync(TimeSyncMessage),
    /// A distributed tracing message (spans, events, links).
    Tracing(TracingMessage),
}

/// A telemetry message associated with the thread it was recorded on.
#[derive(Clone, Debug)]
pub struct InstanceMessage {
    /// The thread this message belongs to.
    pub thread_id: crate::id::ThreadId,
    /// The telemetry message content.
    pub message: TelemetryMessage,
}


impl std::str::FromStr for ThreadId {
    type Err = ParseIntError;

    fn from_str(s: &str) -> (r: Result<Self, Self::Err>)
        ensures
            match r {
                Ok(t) => parse_span_id(s@) == Ok::<u64, ParseIntError>(t.0),
                Err(e) => parse_span_id(s@) == Err::<u64, ParseIntError>(e),
            },
    {
        ThreadId::from_str(s)
    }
}

impl std::str::FromStr for ExecutionId {
    type Err = ParseExecutionIdError;

    fn from_str(s: &str) -> (r: Result<Self, Self::Err>)
        ensures
            match r {
                Ok(e) => parse_execution_id(s@) == Ok::<(u128, u64), ParseExecutionIdError>(
                    (e.process@, e.thread.0),
                ),
                Err(e) => parse_execution_id(s@) == Err::<(u128, u64), ParseExecutionIdError>(e),
            },
    {
        ExecutionId::from_str(s)
    }
}

} // verus!
