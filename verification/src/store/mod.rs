//! Store for tracing data.
//!
//! The [`Store`] collects the spans and logs of a trace, message by message, and keeps them
//! cross-referenced: spans know their parent, children, links and logs; logs know their span.
//! A synthetic "program" span (process 0, span 0) collects logs that belong to no span.

use vstd::prelude::*;
use indexmap::{IndexMap, IndexSet};
use crate::id::{
    lemma_process_id_of, lemma_process_id_view_injective, lemma_thread_process, process_id_of,
    thread_process, ProcessId, SpanContext, SpanId, ThreadId,
};
use crate::protocol::{
    InstanceMessage, KeyValue, LogMessage, Severity, SpanAddEventMessage, SpanAddLinkMessage,
    SpanCloseMessage, SpanCreateMessage, SpanEnterMessage, SpanExitMessage,
    SpanSetAttributeMessage, TelemetryMessage, ThreadId as BareThreadId, TracingMessage, Value as TelemetryValue,
};
use self::model::{
    actor_field, apply_message, attribute_step, bump, close_step, context_in, create_step,
    created_actor, created_span, enter_step, event_step, lemma_create_resolves,
    lemma_ensure_program_lookup, lemma_push_log_resolves, bare_thread, target_context, log_context, log_step, parent_context, tracing_ok, tracing_step,
    with_child,
    exit_step, lemma_update_same_context, lemma_update_span_resolves, link_step,
    span_refs_resolve, contexts_unique, empty_model, ensure_program,
    fields_of, has_span, insert_unique, key_of, lemma_key_of_injective, lemma_pos_of_present,
    lemma_pos_of_unique, lemma_push_span, lemma_push_span_resolves, message_ok, pos_of,
    program_context, program_span_model, references_resolve, span_contexts, span_keys, span_of,
    StoreModel,
};

pub mod model;

verus! {

broadcast use {lemma_process_id_of, lemma_thread_process, lemma_process_id_view_injective};

// ---------------------------------------------------------------------------------------------
// Outside collections
// ---------------------------------------------------------------------------------------------

/// The key of a span in the index: its process number and span number.
pub type SpanKey = (u128, u64);

/// `indexmap::IndexMap`, carried as an opaque collection.
#[verifier::external_type_specification]
#[verifier::external_body]
#[verifier::reject_recursive_types(K)]
#[verifier::reject_recursive_types(V)]
#[verifier::reject_recursive_types(S)]
pub struct ExIndexMap<K, V, S>(IndexMap<K, V, S>);

/// `indexmap::IndexSet`, carried as an opaque collection.
#[verifier::external_type_specification]
#[verifier::external_body]
#[verifier::reject_recursive_types(T)]
#[verifier::reject_recursive_types(S)]
pub struct ExIndexSet<T, S>(IndexSet<T, S>);

/// `std::time::Instant`, carried opaquely.
#[verifier::external_type_specification]
#[verifier::external_body]
pub struct ExInstant(std::time::Instant);

/// The contents of the span index: span key to position in the span list.
pub uninterp spec fn span_slots(m: IndexMap<SpanKey, usize>) -> Map<SpanKey, usize>;

/// The contents of the root span set, in insertion order.
pub uninterp spec fn root_entries(s: IndexSet<SpanKey>) -> Seq<SpanKey>;

/// The contents of a field map: (key, value) pairs in insertion order.
pub uninterp spec fn field_entries(m: IndexMap<String, Value>) -> Seq<(Seq<char>, Value)>;

/// The empty span index contents.
pub open spec fn no_slots() -> Map<SpanKey, usize> {
    Map::empty()
}

/// Creates an empty span index (`IndexMap::new`).
#[verifier::external_body]
fn slots_new() -> (m: IndexMap<SpanKey, usize>)
    ensures
        span_slots(m) == no_slots(),
{
    IndexMap::new()
}

/// Looks a key up in the span index (`IndexMap::get`): the position stored for it, if any.
#[verifier::external_body]
fn slots_get(m: &IndexMap<SpanKey, usize>, k: SpanKey) -> (r: Option<usize>)
    ensures
        r == (if span_slots(*m).contains_key(k) {
            Some(span_slots(*m)[k])
        } else {
            None
        }),
{
    m.get(&k).copied()
}

/// Maps a key to a position in the span index (`IndexMap::insert`), replacing any earlier one.
#[verifier::external_body]
fn slots_insert(m: &mut IndexMap<SpanKey, usize>, k: SpanKey, v: usize)
    ensures
        span_slots(*final(m)) == span_slots(*old(m)).insert(k, v),
{
    m.insert(k, v);
}

/// Empties the span index (`IndexMap::clear`).
#[verifier::external_body]
fn slots_clear(m: &mut IndexMap<SpanKey, usize>)
    ensures
        span_slots(*final(m)) == no_slots(),
{
    m.clear();
}

/// Creates an empty root set (`IndexSet::new`).
#[verifier::external_body]
fn roots_new() -> (s: IndexSet<SpanKey>)
    ensures
        root_entries(s) == Seq::<SpanKey>::empty(),
{
    IndexSet::new()
}

/// Adds a key to the root set (`IndexSet::insert`): appended last unless already present,
/// in which case the set is unchanged.
#[verifier::external_body]
fn roots_insert(s: &mut IndexSet<SpanKey>, k: SpanKey) -> (added: bool)
    ensures
        added == !root_entries(*old(s)).contains(k),
        root_entries(*final(s)) == (if added {
            root_entries(*old(s)).push(k)
        } else {
            root_entries(*old(s))
        }),
{
    s.insert(k)
}

/// The number of roots (`IndexSet::len`).
#[verifier::external_body]
fn roots_len(s: &IndexSet<SpanKey>) -> (n: usize)
    ensures
        n == root_entries(*s).len(),
{
    s.len()
}

/// The root at a position (`IndexSet::get_index`).
#[verifier::external_body]
fn roots_get(s: &IndexSet<SpanKey>, i: usize) -> (r: Option<SpanKey>)
    ensures
        r == (if i < root_entries(*s).len() {
            Some(root_entries(*s)[i as int])
        } else {
            None
        }),
{
    s.get_index(i).copied()
}

/// Empties the root set (`IndexSet::clear`).
#[verifier::external_body]
fn roots_clear(s: &mut IndexSet<SpanKey>)
    ensures
        root_entries(*final(s)) == Seq::<SpanKey>::empty(),
{
    s.clear();
}

/// The position of the first entry with key `k`.
pub open spec fn entry_index(e: Seq<(Seq<char>, Value)>, k: Seq<char>) -> Option<nat>
    decreases e.len(),
{
    if e.len() == 0 {
        None
    } else if e[0].0 == k {
        Some(0)
    } else {
        match entry_index(e.drop_first(), k) {
            Some(i) => Some(i + 1),
            None => None,
        }
    }
}

/// Inserting into an insertion-ordered map: an existing key keeps its place and takes the new
/// value; a new key goes last.
pub open spec fn entries_insert(e: Seq<(Seq<char>, Value)>, k: Seq<char>, v: Value) -> Seq<(Seq<char>, Value)> {
    match entry_index(e, k) {
        Some(i) => e.update(i as int, (k, v)),
        None => e.push((k, v)),
    }
}

/// Creates an empty field map (`IndexMap::new`).
#[verifier::external_body]
fn fields_new() -> (m: IndexMap<String, Value>)
    ensures
        field_entries(m) == Seq::<(Seq<char>, Value)>::empty(),
{
    IndexMap::new()
}

/// Sets a field (`IndexMap::insert`): an existing key keeps its place and takes the new value,
/// a new key goes last.
#[verifier::external_body]
fn fields_insert(m: &mut IndexMap<String, Value>, k: String, v: Value)
    ensures
        field_entries(*final(m)) == entries_insert(field_entries(*old(m)), k@, v),
{
    m.insert(k, v);
}

/// Looks a field up by key (`IndexMap::get`).
#[verifier::external_body]
fn fields_get<'a>(m: &'a IndexMap<String, Value>, k: &str) -> (r: Option<&'a Value>)
    ensures
        match entry_index(field_entries(*m), k@) {
            Some(i) => r matches Some(v) && *v == field_entries(*m)[i as int].1,
            None => r is None,
        },
{
    m.get(k)
}

/// The current instant (`std::time::Instant::now`); nothing about it is stated.
#[verifier::external_body]
fn instant_now() -> std::time::Instant {
    std::time::Instant::now()
}

// ---------------------------------------------------------------------------------------------
// Data types
// ---------------------------------------------------------------------------------------------

/// Unique identifier for a log: its position in the store's log list.
#[derive(Debug, Copy, Clone, Ord, PartialOrd, Eq, PartialEq, Hash, Structural)]
pub struct LogId(usize);

impl View for LogId {
    type V = usize;

    closed spec fn view(&self) -> usize {
        self.0
    }
}

/// The log id for a position.
pub closed spec fn log_id_of(i: usize) -> LogId {
    LogId(i)
}

/// The position named by [`log_id_of`].
pub broadcast proof fn lemma_log_id_of(i: usize)
    ensures
        #[trigger] log_id_of(i)@ == i,
{
}

/// Two log ids with the same position are the same id.
pub broadcast proof fn lemma_log_id_view_injective(a: LogId, b: LogId)
    ensures
        #![trigger a@, b@]
        a@ == b@ ==> a == b,
{
}

impl From<usize> for LogId {
    fn from(value: usize) -> (r: LogId) {
        LogId(value)
    }
}

impl vstd::std_specs::convert::FromSpecImpl<usize> for LogId {
    open spec fn obeys_from_spec() -> bool {
        true
    }

    open spec fn from_spec(v: usize) -> LogId {
        log_id_of(v)
    }
}

impl LogId {
    /// The position of this log in the store.
    pub fn index(&self) -> (r: usize)
        ensures
            r == self@,
    {
        self.0
    }
}

/// Describes the level of verbosity of a log, span or event.
#[derive(Debug, Copy, Clone, Eq, PartialEq, Hash, Structural)]
pub enum Level {
    /// Very serious errors.
    Error,
    /// Hazardous situations.
    Warn,
    /// Useful information.
    Info,
    /// Lower priority information.
    Debug,
    /// Very low priority, often extremely verbose, information.
    Trace,
}

/// The level a protocol severity is shown at: fatal counts as error.
pub open spec fn level_of(s: Severity) -> Level {
    match s {
        Severity::Error => Level::Error,
        Severity::Warn => Level::Warn,
        Severity::Info => Level::Info,
        Severity::Debug => Level::Debug,
        Severity::Trace => Level::Trace,
        Severity::Fatal => Level::Error,
    }
}

/// How serious a protocol severity is, from trace (0) up to fatal (5).
pub open spec fn severity_rank(s: Severity) -> nat {
    match s {
        Severity::Trace => 0,
        Severity::Debug => 1,
        Severity::Info => 2,
        Severity::Warn => 3,
        Severity::Error => 4,
        Severity::Fatal => 5,
    }
}

/// How serious a level is, from trace (0) up to error (4).
pub open spec fn level_rank(l: Level) -> nat {
    match l {
        Level::Trace => 0,
        Level::Debug => 1,
        Level::Info => 2,
        Level::Warn => 3,
        Level::Error => 4,
    }
}

/// A severity is shown at the level of the same seriousness, fatal at the most serious level
/// (error): the mapping keeps the order of seriousness, tells apart every two severities below
/// fatal, and sends fatal where error goes.
pub proof fn lemma_level_keeps_seriousness(a: Severity, b: Severity)
    ensures
        level_rank(level_of(a)) == if severity_rank(a) <= 4 { severity_rank(a) } else { 4 },
        severity_rank(a) <= severity_rank(b) ==> level_rank(level_of(a)) <= level_rank(level_of(b)),
        a != b && a != Severity::Fatal && b != Severity::Fatal ==> level_of(a) != level_of(b),
        level_of(Severity::Fatal) == level_of(Severity::Error),
{
}

/// The name of a level.
pub open spec fn level_name(l: Level) -> &'static str {
    match l {
        Level::Error => "ERROR",
        Level::Warn => "WARN",
        Level::Info => "INFO",
        Level::Debug => "DEBUG",
        Level::Trace => "TRACE",
    }
}

impl From<Severity> for Level {
    fn from(value: Severity) -> (r: Level) {
        Level::from_severity(value)
    }
}

impl vstd::std_specs::convert::FromSpecImpl<Severity> for Level {
    open spec fn obeys_from_spec() -> bool {
        true
    }

    open spec fn from_spec(v: Severity) -> Level {
        level_of(v)
    }
}

impl From<TelemetryValue> for Value {
    fn from(value: TelemetryValue) -> (r: Value) {
        Value::from_telemetry(&value)
    }
}

impl vstd::std_specs::convert::FromSpecImpl<TelemetryValue> for Value {
    open spec fn obeys_from_spec() -> bool {
        true
    }

    open spec fn from_spec(v: TelemetryValue) -> Value {
        value_of(v)
    }
}

impl Level {
    /// The level a protocol severity is shown at.
    pub fn from_severity(value: Severity) -> (r: Level)
        ensures
            r == level_of(value),
    {
        match value {
            Severity::Error => Level::Error,
            Severity::Warn => Level::Warn,
            Severity::Info => Level::Info,
            Severity::Debug => Level::Debug,
            Severity::Trace => Level::Trace,
            Severity::Fatal => Level::Error,
        }
    }

    /// The upper-case name of the level, for logging purposes.
    pub fn as_str(&self) -> (r: &'static str)
        ensures
            r == level_name(*self),
    {
        match self {
            Level::Error => "ERROR",
            Level::Warn => "WARN",
            Level::Info => "INFO",
            Level::Debug => "DEBUG",
            Level::Trace => "TRACE",
        }
    }
}

/// Metadata associated with a span or log entry.
#[derive(Debug, Clone)]
pub struct Metadata {
    /// The name of the span described by this metadata.
    pub name: String,
    /// The part of the system that the span occurred in.
    pub target: String,
    /// The verbosity level of the described span.
    pub level: Level,
    /// The source file of the span, or `None` if unknown.
    pub file: Option<String>,
}

/// The mathematical form of [`Metadata`].
#[verifier::ext_equal]
pub struct MetadataModel {
    pub name: Seq<char>,
    pub target: Seq<char>,
    pub level: Level,
    pub file: Option<Seq<char>>,
}

impl View for Metadata {
    type V = MetadataModel;

    open spec fn view(&self) -> MetadataModel {
        MetadataModel {
            name: self.name@,
            target: self.target@,
            level: self.level,
            file: match self.file {
                Some(f) => Some(f@),
                None => None,
            },
        }
    }
}

/// The possible values a span field may contain.
#[derive(Debug)]
pub enum Value {
    /// A string.
    Str(String),
    /// A 64-bit float, held as its IEEE-754 bit pattern (`f64::to_bits`).
    F64(u64),
    /// A signed 64-bit integer.
    I64(i64),
    /// An unsigned 64-bit integer.
    U64(u64),
    /// A signed 128-bit integer.
    I128(i128),
    /// An unsigned 128-bit integer.
    U128(u128),
    /// A boolean.
    Bool(bool),
}

impl Clone for Value {
    fn clone(&self) -> (r: Self)
        ensures
            r == *self,
    {
        match self {
            Value::Str(s) => Value::Str(s.clone()),
            Value::F64(v) => Value::F64(*v),
            Value::I64(v) => Value::I64(*v),
            Value::U64(v) => Value::U64(*v),
            Value::I128(v) => Value::I128(*v),
            Value::U128(v) => Value::U128(*v),
            Value::Bool(v) => Value::Bool(*v),
        }
    }
}

/// The field value a protocol attribute value becomes.
pub open spec fn value_of(v: TelemetryValue) -> Value {
    match v {
        TelemetryValue::String(s) => Value::Str(s),
        TelemetryValue::Bool(b) => Value::Bool(b),
        TelemetryValue::I64(i) => Value::I64(i),
        TelemetryValue::F64(f) => Value::F64(f),
    }
}

impl Value {
    /// The string, if the value is one.
    pub fn as_str(&self) -> (r: Option<&str>)
        ensures
            match *self {
                Value::Str(s) => r matches Some(t) && t@ == s@,
                _ => r is None,
            },
    {
        match self {
            Value::Str(value) => Some(value.as_str()),
            _ => None,
        }
    }

    /// The field value a protocol attribute value becomes.
    pub fn from_telemetry(value: &TelemetryValue) -> (r: Value)
        ensures
            r == value_of(*value),
    {
        match value {
            TelemetryValue::String(s) => Value::Str(s.clone()),
            TelemetryValue::Bool(b) => Value::Bool(*b),
            TelemetryValue::I64(i) => Value::I64(*i),
            TelemetryValue::F64(f) => Value::F64(*f),
        }
    }
}

/// A timestamp internally represented as nanoseconds.
#[derive(Debug, Copy, Clone, Ord, PartialOrd, Eq, PartialEq, Hash, Structural)]
pub struct Timestamp(i64);

impl View for Timestamp {
    type V = i64;

    closed spec fn view(&self) -> i64 {
        self.0
    }
}

/// The timestamp of `v` nanoseconds.
pub closed spec fn timestamp_of(v: i64) -> Timestamp {
    Timestamp(v)
}

/// The nanoseconds of [`timestamp_of`].
pub broadcast proof fn lemma_timestamp_of(v: i64)
    ensures
        #[trigger] timestamp_of(v)@ == v,
{
}

/// Two timestamps with the same nanoseconds are the same timestamp.
pub broadcast proof fn lemma_timestamp_view_injective(a: Timestamp, b: Timestamp)
    ensures
        #![trigger a@, b@]
        a@ == b@ ==> a == b,
{
}

/// The smaller of two integers.
pub open spec fn min_i64(a: i64, b: i64) -> i64 {
    if a <= b {
        a
    } else {
        b
    }
}

/// The larger of two integers.
pub open spec fn max_i64(a: i64, b: i64) -> i64 {
    if a >= b {
        a
    } else {
        b
    }
}

impl Timestamp {
    /// The largest value that can be represented by this timestamp type.
    pub fn max_value() -> (r: Timestamp)
        ensures
            r@ == i64::MAX,
    {
        Timestamp(i64::MAX)
    }

    /// The smallest value that can be represented by this timestamp type.
    pub fn min_value() -> (r: Timestamp)
        ensures
            r@ == i64::MIN,
    {
        Timestamp(i64::MIN)
    }

    /// Create a timestamp from a raw value in nanoseconds.
    pub fn from_ns(value: i64) -> (r: Self)
        ensures
            r@ == value,
    {
        Timestamp(value)
    }

    /// Returns the timestamp as nanoseconds.
    pub fn as_ns(&self) -> (r: i64)
        ensures
            r == self@,
    {
        self.0
    }

    /// The earlier of two timestamps.
    pub fn min(self, other: Timestamp) -> (r: Timestamp)
        ensures
            r@ == min_i64(self@, other@),
    {
        if self.0 <= other.0 {
            self
        } else {
            other
        }
    }

    /// The later of two timestamps.
    pub fn max(self, other: Timestamp) -> (r: Timestamp)
        ensures
            r@ == max_i64(self@, other@),
    {
        if self.0 >= other.0 {
            self
        } else {
            other
        }
    }
}

/// Represents a period of activity within a span.
#[derive(Debug, Clone, Copy)]
pub struct ActivityPeriod {
    /// The timestamp when this period started.
    pub start: Timestamp,
    /// The timestamp when this period ended.
    pub end: Timestamp,
}

/// Represents a span of the trace.
#[derive(Debug)]
pub struct Span {
    /// The span's process and id.
    pub context: SpanContext,
    /// Fields added to the span.
    pub fields: IndexMap<String, Value>,
    /// The parent span's context.
    pub parent: Option<SpanContext>,
    /// The span's children.
    pub children: Vec<SpanContext>,
    /// Related spans this span is linked to.
    pub links: Vec<SpanContext>,
    /// Logs that happened during this span.
    pub logs: Vec<LogId>,
    /// The timestamp when this span started.
    pub start: Timestamp,
    /// The timestamp when this span ended.
    pub end: Timestamp,
    /// The actor this span is in.
    pub actor: String,
    /// Periods of activity; an async span may have several, separated by suspensions.
    pub activity: Vec<ActivityPeriod>,
    /// The thread the span was created on (thread number 0 for the program span).
    pub thread_id: BareThreadId,
    /// Span metadata.
    pub metadata: Metadata,
}

/// The mathematical form of a [`Span`].
#[verifier::ext_equal]
pub struct SpanModel {
    pub context: SpanContext,
    pub fields: Seq<(Seq<char>, Value)>,
    pub parent: Option<SpanContext>,
    pub children: Seq<SpanContext>,
    pub links: Seq<SpanContext>,
    pub logs: Seq<LogId>,
    pub start: i64,
    pub end: i64,
    pub actor: Seq<char>,
    pub activity: Seq<ActivityPeriod>,
    pub thread_id: BareThreadId,
    pub metadata: MetadataModel,
}

impl View for Span {
    type V = SpanModel;

    open spec fn view(&self) -> SpanModel {
        SpanModel {
            context: self.context,
            fields: field_entries(self.fields),
            parent: self.parent,
            children: self.children@,
            links: self.links@,
            logs: self.logs@,
            start: self.start@,
            end: self.end@,
            actor: self.actor@,
            activity: self.activity@,
            thread_id: self.thread_id,
            metadata: self.metadata@,
        }
    }
}

/// The duration of a span: zero before any data, else end minus start.
pub open spec fn span_duration(start: i64, end: i64) -> int {
    if start == i64::MAX && end == i64::MIN {
        0
    } else {
        end - start
    }
}

impl Span {
    /// Returns the total duration of the span (periods of inactivity included).
    pub fn duration(&self) -> (r: Timestamp)
        requires
            i64::MIN <= span_duration(self.start@, self.end@) <= i64::MAX,
        ensures
            r@ == span_duration(self.start@, self.end@),
    {
        if self.start.0 == i64::MAX && self.end.0 == i64::MIN {
            Timestamp(0)
        } else {
            Timestamp(self.end.0 - self.start.0)
        }
    }
}

/// Represents a log entry in the trace.
#[derive(Debug)]
pub struct Log {
    /// The log's id.
    pub id: LogId,
    /// The span this log is part of.
    pub span_context: SpanContext,
    /// Fields added to the log.
    pub fields: IndexMap<String, Value>,
    /// Log message.
    pub body: String,
    /// Actor this was logged in.
    pub actor: String,
    /// Log metadata.
    pub metadata: Metadata,
    /// Timestamp.
    pub timestamp: Timestamp,
    /// The thread the log was recorded on.
    pub thread_id: BareThreadId,
}

/// The mathematical form of a [`Log`].
#[verifier::ext_equal]
pub struct LogModel {
    pub id: LogId,
    pub span_context: SpanContext,
    pub fields: Seq<(Seq<char>, Value)>,
    pub body: Seq<char>,
    pub actor: Seq<char>,
    pub metadata: MetadataModel,
    pub timestamp: i64,
    pub thread_id: BareThreadId,
}

impl View for Log {
    type V = LogModel;

    open spec fn view(&self) -> LogModel {
        LogModel {
            id: self.id,
            span_context: self.span_context,
            fields: field_entries(self.fields),
            body: self.body@,
            actor: self.actor@,
            metadata: self.metadata@,
            timestamp: self.timestamp@,
            thread_id: self.thread_id,
        }
    }
}

// ---------------------------------------------------------------------------------------------
// The store and its model
// ---------------------------------------------------------------------------------------------


/// The store parses trace messages and collects all logs and spans for easy access.
#[derive(Debug)]
pub struct Store {
    spans: Vec<Span>,
    span_index: IndexMap<SpanKey, usize>,
    root_spans: IndexSet<SpanKey>,
    logs: Vec<Log>,
    actors: Vec<String>,
    /// The earliest known timestamp (the largest timestamp until data arrives).
    pub start: Timestamp,
    /// The latest known timestamp (the smallest timestamp until data arrives).
    pub end: Timestamp,
    /// When the latest data was recorded.
    pub last_update: std::time::Instant,
    /// Whether we have a continuously updated data source.
    pub continuous: bool,
}

impl Store {
    /// The earliest known timestamp (the largest timestamp until data arrives): the field
    /// `start`, as the model gives it.
    pub fn start(&self) -> (r: Timestamp)
        ensures
            r@ == self@.start,
    {
        self.start
    }

    /// The latest known timestamp (the smallest timestamp until data arrives): the field `end`,
    /// as the model gives it.
    pub fn end(&self) -> (r: Timestamp)
        ensures
            r@ == self@.end,
    {
        self.end
    }

    /// Whether the data source is continuous: the field `continuous`, as the model gives it.
    pub fn is_continuous(&self) -> (r: bool)
        ensures
            r == self@.continuous,
    {
        self.continuous
    }

    /// When the latest data was recorded: the field `last_update`, which the model leaves out
    /// because it is a clock reading.
    pub closed spec fn updated_at(&self) -> std::time::Instant {
        self.last_update
    }
}

impl View for Store {
    type V = StoreModel;

    closed spec fn view(&self) -> StoreModel {
        StoreModel {
            spans: self.spans@.map_values(|s: Span| s@),
            roots: root_entries(self.root_spans),
            logs: self.logs@.map_values(|l: Log| l@),
            actors: self.actors@.map_values(|a: String| a@),
            start: self.start@,
            end: self.end@,
            continuous: self.continuous,
        }
    }
}

/// The span index maps exactly the keys of the spans, each to its span's position.
pub open spec fn index_matches(spans: Seq<SpanModel>, slots: Map<SpanKey, usize>) -> bool {
    &&& forall|i: int|
        0 <= i < spans.len() ==> slots.contains_key(key_of(#[trigger] spans[i].context))
            && slots[key_of(spans[i].context)] == i
    &&& forall|k: SpanKey|
        #[trigger] slots.contains_key(k) ==> slots[k] < spans.len() && key_of(
            spans[slots[k] as int].context,
        ) == k
}

impl Store {
    /// The store's internal consistency: the span index finds every span by its key, and the
    /// model's references resolve.
    pub closed spec fn wf(&self) -> bool {
        &&& index_matches(self@.spans, span_slots(self.span_index))
        &&& references_resolve(self@)
    }
}

/// The index key of a span context.
fn span_key(c: SpanContext) -> (k: SpanKey)
    ensures
        k == key_of(c),
{
    (c.process_id.to_raw(), c.span_id.0)
}

/// Mutable access to the span at a position.
fn span_at_mut(spans: &mut Vec<Span>, i: usize) -> (s: &mut Span)
    requires
        i < old(spans).len(),
    ensures
        *s == old(spans)@[i as int],
        final(spans)@ == old(spans)@.update(i as int, *final(s)),
{
    &mut spans[i]
}

/// The fields built from attributes (`IndexMap` collected from key-value pairs).
fn fields_from(attributes: &Vec<KeyValue>) -> (f: IndexMap<String, Value>)
    ensures
        field_entries(f) == fields_of(attributes@),
{
    let mut f = fields_new();
    let n = attributes.len();
    for i in 0..n
        invariant
            n == attributes.len(),
            field_entries(f) == fields_of(attributes@.take(i as int)),
    {
        let kv = &attributes[i];
        proof {
            let t = attributes@.take(i + 1);
            assert(t.drop_last() =~= attributes@.take(i as int));
            assert(t.last() == attributes@[i as int]);
        }
        fields_insert(&mut f, kv.key.clone(), Value::from_telemetry(&kv.value));
    }
    assert(attributes@.take(n as int) =~= attributes@);
    f
}

/// The actor of a new span: its string `actor` field, else the inherited actor, else `None`.
fn span_actor(fields: &IndexMap<String, Value>, inherited: Option<String>) -> (a: String)
    ensures
        a@ == match actor_field(field_entries(*fields)) {
            Some(x) => x,
            None => match inherited {
                Some(p) => p@,
                None => "None"@,
            },
        },
{
    broadcast use vstd::string::to_string_from_display_ensures_for_str;

    let found = match fields_get(fields, "actor") {
        Some(v) => v.as_str(),
        None => None,
    };
    match found {
        Some(a) => a.to_string(),
        None => match inherited {
            Some(p) => p,
            None => "None".to_string(),
        },
    }
}

impl Default for Store {
    /// An empty store, its time bounds inverted so that the first timestamp becomes both.
    fn default() -> (s: Store)
        ensures
            s@ == empty_model(),
            s.wf(),
    {
        let s = Store {
            spans: Vec::new(),
            span_index: slots_new(),
            root_spans: roots_new(),
            logs: Vec::new(),
            actors: Vec::new(),
            start: Timestamp(i64::MAX),
            end: Timestamp(i64::MIN),
            last_update: instant_now(),
            continuous: false,
        };
        assert(s@.spans =~= Seq::<SpanModel>::empty());
        assert(s@.logs =~= Seq::<LogModel>::empty());
        assert(s@.actors =~= Seq::<Seq<char>>::empty());
        s
    }
}

impl Store {
    /// The store's spans, its index, roots and logs fit together: contexts are unique and the
    /// index finds each span.
    closed spec fn index_ok(&self) -> bool {
        &&& index_matches(self@.spans, span_slots(self.span_index))
        &&& contexts_unique(self@.spans)
    }

    /// The position of the span with context `c`, if there is one.
    fn find(&self, c: SpanContext) -> (r: Option<usize>)
        requires
            self.index_ok(),
        ensures
            match r {
                Some(i) => has_span(self@.spans, c) && i == pos_of(self@.spans, c) && i
                    < self.spans.len(),
                None => !has_span(self@.spans, c),
            },
    {
        let r = slots_get(&self.span_index, span_key(c));
        proof {
            let spans = self@.spans;
            let slots = span_slots(self.span_index);
            match r {
                Some(i) => {
                    assert(slots.contains_key(key_of(c)));
                    lemma_key_of_injective(spans[i as int].context, c);
                    lemma_pos_of_unique(spans, i as int, c);
                },
                None => {
                    if has_span(spans, c) {
                        lemma_pos_of_present(spans, c);
                        let j = pos_of(spans, c);
                        assert(slots.contains_key(key_of(spans[j].context)));
                    }
                },
            }
        }
        r
    }

    /// Marks the data source as continuously updated, or not.
    pub fn set_continuous(&mut self, continuous: bool)
        ensures
            final(self)@ == (StoreModel { continuous, ..old(self)@ }),
            old(self).wf() ==> final(self).wf(),
            final(self).updated_at() == old(self).updated_at(),
    {
        self.continuous = continuous;
    }

    /// Clear all data in the store.
    pub fn clear(&mut self)
        ensures
            final(self)@ == empty_model(),
            final(self).wf(),
            final(self).updated_at() == old(self).updated_at(),
    {
        self.spans.clear();
        slots_clear(&mut self.span_index);
        roots_clear(&mut self.root_spans);
        self.logs.clear();
        self.actors.clear();
        self.start = Timestamp(i64::MAX);
        self.end = Timestamp(i64::MIN);
        self.continuous = false;
        assert(self@.spans =~= Seq::<SpanModel>::empty());
        assert(self@.logs =~= Seq::<LogModel>::empty());
        assert(self@.actors =~= Seq::<Seq<char>>::empty());
    }

    /// Widens the time bounds to cover `time_unix_nano` (read as signed nanoseconds), notes
    /// the update time, and returns the timestamp.
    fn update_timestamp(&mut self, time_unix_nano: u64) -> (r: Timestamp)
        ensures
            r@ == time_unix_nano as i64,
            final(self)@ == bump(old(self)@, time_unix_nano),
            final(self).spans == old(self).spans,
            final(self).span_index == old(self).span_index,
            final(self).root_spans == old(self).root_spans,
            final(self).logs == old(self).logs,
            final(self).actors == old(self).actors,
    {
        let timestamp = Timestamp(time_unix_nano as i64);
        self.start = self.start.min(timestamp);
        self.end = self.end.max(timestamp);
        self.last_update = instant_now();
        timestamp
    }

    /// Records an actor unless it was seen before.
    fn note_actor(&mut self, actor: &String)
        ensures
            final(self)@ == (StoreModel { actors: insert_unique(old(self)@.actors, actor@), ..old(self)@ }),
            final(self).spans == old(self).spans,
            final(self).span_index == old(self).span_index,
            final(self).root_spans == old(self).root_spans,
            final(self).logs == old(self).logs,
    {
        let n = self.actors.len();
        let mut i: usize = 0;
        while i < n
            invariant
                n == self.actors.len(),
                i <= n,
                forall|j: int| 0 <= j < i ==> self@.actors[j] != actor@,
            decreases n - i,
        {
            if self.actors[i] == *actor {
                assert(self@.actors[i as int] == actor@);
                return;
            }
            i = i + 1;
        }
        let ghost before = self@.actors;
        self.actors.push(actor.clone());
        assert(self@.actors =~= before.push(actor@));
    }

    /// Inserts the program span, which collects logs that belong to no known span, unless it
    /// is already there.
    pub fn ensure_program_span(&mut self)
        requires
            old(self).wf(),
        ensures
            final(self).wf(),
            final(self)@ == ensure_program(old(self)@),
            has_span(final(self)@.spans, program_context()),
    {
        broadcast use vstd::string::to_string_from_display_ensures_for_str;

        let c = SpanContext::new(ProcessId::from_raw(0), SpanId(0));
        assert(c == program_context());
        if self.find(c).is_none() {
            let ghost m = self@;
            let n = self.spans.len();
            let span = Span {
                context: c,
                fields: fields_new(),
                parent: None,
                children: Vec::new(),
                links: Vec::new(),
                logs: Vec::new(),
                start: Timestamp(0),
                end: Timestamp(0),
                actor: "None".to_string(),
                activity: Vec::new(),
                thread_id: BareThreadId(0),
                metadata: Metadata {
                    name: "program".to_string(),
                    target: "program".to_string(),
                    level: Level::Info,
                    file: None,
                },
            };
            assert(span@ =~= program_span_model());
            self.spans.push(span);
            slots_insert(&mut self.span_index, span_key(c), n);
            proof {
                assert(self.spans.len() == n + 1);
                assert(self@.spans =~= m.spans.push(program_span_model()));
                lemma_push_span(m.spans, program_span_model());
                lemma_push_index(m.spans, span_slots(old(self).span_index), program_span_model());
                lemma_push_span_resolves(m, program_span_model());
            }
        }
    }
}

/// Appending a span of a new context, indexed at the end, keeps the index matching.
proof fn lemma_push_index(spans: Seq<SpanModel>, slots: Map<SpanKey, usize>, s: SpanModel)
    requires
        index_matches(spans, slots),
        !has_span(spans, s.context),
        spans.len() < usize::MAX,
    ensures
        index_matches(spans.push(s), slots.insert(key_of(s.context), spans.len() as usize)),
{
    let spans2 = spans.push(s);
    let slots2 = slots.insert(key_of(s.context), spans.len() as usize);
    assert(!slots.contains_key(key_of(s.context))) by {
        if slots.contains_key(key_of(s.context)) {
            let j = slots[key_of(s.context)] as int;
            lemma_key_of_injective(spans[j].context, s.context);
            assert(span_contexts(spans)[j] == s.context);
        }
    }
    assert forall|i: int| 0 <= i < spans2.len() implies slots2.contains_key(
        key_of(#[trigger] spans2[i].context),
    ) && slots2[key_of(spans2[i].context)] == i by {
        if i < spans.len() {
            assert(slots.contains_key(key_of(spans[i].context)));
        }
    }
}

/// Replacing a span of a consistent store by one of the same context whose references resolve
/// keeps the index matching and the references resolving.
proof fn lemma_update_in_store(m: StoreModel, slots: Map<SpanKey, usize>, i: int, s: SpanModel)
    requires
        index_matches(m.spans, slots),
        references_resolve(m),
        0 <= i < m.spans.len(),
        s.context == m.spans[i].context,
        span_refs_resolve(s, m.spans, m.logs.len()),
    ensures
        index_matches(m.spans.update(i, s), slots),
        references_resolve(StoreModel { spans: m.spans.update(i, s), ..m }),
        span_contexts(m.spans.update(i, s)) == span_contexts(m.spans),
{
    let spans2 = m.spans.update(i, s);
    lemma_update_same_context(m.spans, i, s);
    lemma_update_span_resolves(m, i, s);
    assert forall|j: int| 0 <= j < spans2.len() implies slots.contains_key(
        key_of(#[trigger] spans2[j].context),
    ) && slots[key_of(spans2[j].context)] == j by {
        assert(span_contexts(spans2)[j] == span_contexts(m.spans)[j]);
    }
    assert forall|k: SpanKey| #[trigger] slots.contains_key(k) implies slots[k] < spans2.len()
        && key_of(spans2[slots[k] as int].context) == k by {
        let j = slots[k] as int;
        assert(span_contexts(spans2)[j] == span_contexts(m.spans)[j]);
    }
}

/// Replacing a span of a consistent store by one with the same context and the same children,
/// parent and logs keeps the index matching and the references resolving.
proof fn lemma_update_keeping_refs(m: StoreModel, slots: Map<SpanKey, usize>, i: int, s: SpanModel)
    requires
        index_matches(m.spans, slots),
        references_resolve(m),
        0 <= i < m.spans.len(),
        s.context == m.spans[i].context,
        s.children == m.spans[i].children,
        s.parent == m.spans[i].parent,
        s.logs == m.spans[i].logs,
    ensures
        index_matches(m.spans.update(i, s), slots),
        references_resolve(StoreModel { spans: m.spans.update(i, s), ..m }),
        span_contexts(m.spans.update(i, s)) == span_contexts(m.spans),
{
    let old_span = m.spans[i];
    assert(span_refs_resolve(old_span, m.spans, m.logs.len()));
    assert forall|j: int| 0 <= j < s.children.len() implies has_span(
        m.spans,
        #[trigger] s.children[j],
    ) by {
        assert(s.children[j] == old_span.children[j]);
    }
    assert forall|j: int| 0 <= j < s.logs.len() implies (#[trigger] s.logs[j])@ < m.logs.len() by {
        assert(s.logs[j] == old_span.logs[j]);
    }
    lemma_update_in_store(m, slots, i, s);
}

impl Store {
    /// Entering a span: its start moves back if earlier, and an activity period opens.
    fn enter_span(&mut self, process: ProcessId, e: SpanEnterMessage)
        requires
            old(self).wf(),
            has_span(old(self)@.spans, context_in(process, e.span_id)),
        ensures
            final(self).wf(),
            final(self)@ == enter_step(old(self)@, process, e),
    {
        let t = self.update_timestamp(e.time_unix_nano);
        let c = SpanContext::new(process, e.span_id);
        let i = self.find(c).unwrap();
        let ghost m1 = self@;
        let ghost slots = span_slots(self.span_index);
        let sp = span_at_mut(&mut self.spans, i);
        sp.start = sp.start.min(t);
        sp.activity.push(ActivityPeriod { start: t, end: Timestamp(i64::MAX) });
        proof {
            let new = self.spans@[i as int]@;
            assert(self@.spans =~= m1.spans.update(i as int, new));
            lemma_update_keeping_refs(m1, slots, i as int, new);
        }
    }

    /// Exiting a span: its last activity period ends now, and the program span's end moves
    /// forward to now if later.
    fn exit_span(&mut self, process: ProcessId, e: SpanExitMessage)
        requires
            old(self).wf(),
            has_span(old(self)@.spans, program_context()),
            has_span(old(self)@.spans, context_in(process, e.span_id)),
            span_of(old(self)@.spans, context_in(process, e.span_id)).activity.len() > 0,
        ensures
            final(self).wf(),
            final(self)@ == exit_step(old(self)@, process, e),
    {
        let t = self.update_timestamp(e.time_unix_nano);
        let c = SpanContext::new(process, e.span_id);
        let i = self.find(c).unwrap();
        let ghost m1 = self@;
        let ghost slots = span_slots(self.span_index);
        let sp = span_at_mut(&mut self.spans, i);
        let n = sp.activity.len() - 1;
        let last = sp.activity[n];
        sp.activity.set(n, ActivityPeriod { start: last.start, end: t });
        let ghost m2 = StoreModel { spans: self@.spans, ..m1 };
        proof {
            let new = self.spans@[i as int]@;
            assert(self@.spans =~= m1.spans.update(i as int, new));
            lemma_update_keeping_refs(m1, slots, i as int, new);
            assert(self@ == m2);
        }
        let p = SpanContext::new(ProcessId::from_raw(0), SpanId(0));
        assert(p == program_context());
        let j = self.find(p).unwrap();
        let pp = span_at_mut(&mut self.spans, j);
        pp.end = pp.end.max(t);
        proof {
            let new = self.spans@[j as int]@;
            assert(self@.spans =~= m2.spans.update(j as int, new));
            lemma_update_keeping_refs(m2, slots, j as int, new);
        }
    }

    /// Closing a span: it ends where its last activity period ended, or now if it never ran.
    fn close_span(&mut self, process: ProcessId, e: SpanCloseMessage)
        requires
            old(self).wf(),
            has_span(old(self)@.spans, context_in(process, e.span_id)),
        ensures
            final(self).wf(),
            final(self)@ == close_step(old(self)@, process, e),
    {
        let t = self.update_timestamp(e.end_time_unix_nano);
        let c = SpanContext::new(process, e.span_id);
        let i = self.find(c).unwrap();
        let ghost m1 = self@;
        let ghost slots = span_slots(self.span_index);
        let sp = span_at_mut(&mut self.spans, i);
        let n = sp.activity.len();
        sp.end = if n == 0 {
            t
        } else {
            sp.activity[n - 1].end
        };
        proof {
            let new = self.spans@[i as int]@;
            assert(self@.spans =~= m1.spans.update(i as int, new));
            lemma_update_keeping_refs(m1, slots, i as int, new);
        }
    }

    /// A link on a span: the linked context is appended to its links.
    fn add_link(&mut self, process: ProcessId, l: SpanAddLinkMessage)
        requires
            old(self).wf(),
            has_span(old(self)@.spans, target_context(process, l.span_id)),
        ensures
            final(self).wf(),
            final(self)@ == link_step(old(self)@, process, l),
    {
        let c = target_of(process, l.span_id);
        let i = self.find(c).unwrap();
        let ghost m1 = self@;
        let ghost slots = span_slots(self.span_index);
        let sp = span_at_mut(&mut self.spans, i);
        sp.links.push(l.link);
        proof {
            let new = self.spans@[i as int]@;
            assert(self@.spans =~= m1.spans.update(i as int, new));
            lemma_update_keeping_refs(m1, slots, i as int, new);
        }
    }

    /// An attribute on a span: the field is set, keeping its place if it existed.
    fn set_attribute(&mut self, process: ProcessId, a: SpanSetAttributeMessage)
        requires
            old(self).wf(),
            has_span(old(self)@.spans, target_context(process, a.span_id)),
        ensures
            final(self).wf(),
            final(self)@ == attribute_step(old(self)@, process, a),
    {
        let c = target_of(process, a.span_id);
        let i = self.find(c).unwrap();
        let ghost m1 = self@;
        let ghost slots = span_slots(self.span_index);
        let value = Value::from_telemetry(&a.attribute.value);
        let key = a.attribute.key.clone();
        let sp = span_at_mut(&mut self.spans, i);
        fields_insert(&mut sp.fields, key, value);
        proof {
            let new = self.spans@[i as int]@;
            assert(self@.spans =~= m1.spans.update(i as int, new));
            lemma_update_keeping_refs(m1, slots, i as int, new);
        }
    }
}

/// Replacing a span of a consistent store by one with the same context, children and parent,
/// and with one more log that exists, keeps the index matching and the references resolving.
proof fn lemma_update_adding_log(m: StoreModel, slots: Map<SpanKey, usize>, i: int, s: SpanModel, id: LogId)
    requires
        index_matches(m.spans, slots),
        references_resolve(m),
        0 <= i < m.spans.len(),
        s.context == m.spans[i].context,
        s.children == m.spans[i].children,
        s.parent == m.spans[i].parent,
        s.logs == m.spans[i].logs.push(id),
        id@ < m.logs.len(),
    ensures
        index_matches(m.spans.update(i, s), slots),
        references_resolve(StoreModel { spans: m.spans.update(i, s), ..m }),
{
    let old_span = m.spans[i];
    assert(span_refs_resolve(old_span, m.spans, m.logs.len()));
    assert forall|j: int| 0 <= j < s.children.len() implies has_span(
        m.spans,
        #[trigger] s.children[j],
    ) by {
        assert(s.children[j] == old_span.children[j]);
    }
    assert forall|j: int| 0 <= j < s.logs.len() implies (#[trigger] s.logs[j])@ < m.logs.len() by {
        if j < old_span.logs.len() {
            assert(s.logs[j] == old_span.logs[j]);
        }
    }
    lemma_update_in_store(m, slots, i, s);
}

/// The contexts of two span sequences agree, so an index matching one matches the other.
proof fn lemma_index_same_contexts(spans: Seq<SpanModel>, spans2: Seq<SpanModel>, slots: Map<SpanKey, usize>)
    requires
        index_matches(spans, slots),
        span_contexts(spans2) == span_contexts(spans),
    ensures
        index_matches(spans2, slots),
{
    assert(spans2.len() == span_contexts(spans2).len());
    assert(spans.len() == span_contexts(spans).len());
    assert forall|j: int| 0 <= j < spans2.len() implies slots.contains_key(
        key_of(#[trigger] spans2[j].context),
    ) && slots[key_of(spans2[j].context)] == j by {
        assert(span_contexts(spans2)[j] == spans2[j].context);
        assert(span_contexts(spans)[j] == spans[j].context);
        assert(slots.contains_key(key_of(spans[j].context)));
    }
    assert forall|k: SpanKey| #[trigger] slots.contains_key(k) implies slots[k] < spans2.len()
        && key_of(spans2[slots[k] as int].context) == k by {
        let j = slots[k] as int;
        assert(span_contexts(spans2)[j] == span_contexts(spans)[j]);
    }
}

/// The context a message names by an optional span id: that span in `process`, or the
/// program span.
fn target_of(process: ProcessId, id: Option<SpanId>) -> (c: SpanContext)
    ensures
        c == target_context(process, id),
{
    match id {
        Some(id) => SpanContext::new(process, id),
        None => {
            let program = SpanContext::new(ProcessId::from_raw(0), SpanId(0));
            assert(program == program_context());
            program
        },
    }
}

impl Store {
    /// An event on a span: a new log, next in line, attached to the span and in its actor.
    fn add_event(&mut self, process: ProcessId, thread: BareThreadId, e: SpanAddEventMessage)
        requires
            old(self).wf(),
            has_span(old(self)@.spans, target_context(process, e.span_id)),
        ensures
            final(self).wf(),
            final(self)@ == event_step(old(self)@, process, thread, e),
    {
        broadcast use vstd::string::to_string_from_display_ensures_for_str;

        let t = self.update_timestamp(e.time_unix_nano);
        let c = target_of(process, e.span_id);
        let i = self.find(c).unwrap();
        let ghost m1 = self@;
        let ghost slots = span_slots(self.span_index);
        let id = LogId(self.logs.len());
        let fields = fields_from(&e.attributes);
        let sp = span_at_mut(&mut self.spans, i);
        sp.logs.push(id);
        let actor = sp.actor.clone();
        let log = Log {
            id,
            span_context: c,
            fields,
            body: e.name.clone(),
            actor,
            metadata: Metadata {
                name: e.name.clone(),
                target: "unknown".to_string(),
                level: Level::Info,
                file: None,
            },
            timestamp: t,
            thread_id: thread,
        };
        let ghost lm = log@;
        self.logs.push(log);
        proof {
            let new = self.spans@[i as int]@;
            let m2 = StoreModel { logs: m1.logs.push(lm), ..m1 };
            assert(self@.logs =~= m2.logs);
            assert(self@.spans =~= m2.spans.update(i as int, new));
            lemma_push_log_resolves(m1, lm);
            lemma_update_adding_log(m2, slots, i as int, new, id);
        }
    }

    /// A log message: a new log, next in line, attached to its span if that span exists and
    /// to the program span otherwise.
    fn record_log(&mut self, process: ProcessId, thread: BareThreadId, l: LogMessage)
        requires
            old(self).wf(),
            has_span(old(self)@.spans, program_context()),
        ensures
            final(self).wf(),
            final(self)@ == log_step(old(self)@, process, thread, l),
    {
        broadcast use vstd::string::to_string_from_display_ensures_for_str;

        let t = self.update_timestamp(l.time_unix_nano);
        let program = SpanContext::new(ProcessId::from_raw(0), SpanId(0));
        assert(program == program_context());
        let c = match l.span_id {
            Some(id) => SpanContext::new(process, id),
            None => program,
        };
        assert(c == log_context(process, l));
        let i = match self.find(c) {
            Some(i) => i,
            None => self.find(program).unwrap(),
        };
        let ghost m1 = self@;
        let ghost slots = span_slots(self.span_index);
        let id = LogId(self.logs.len());
        let fields = fields_from(&l.attributes);
        let sp = span_at_mut(&mut self.spans, i);
        sp.logs.push(id);
        let actor = sp.actor.clone();
        let log = Log {
            id,
            span_context: c,
            fields,
            body: l.body.clone(),
            actor,
            metadata: Metadata {
                name: "log".to_string(),
                target: "unknown".to_string(),
                level: Level::from_severity(l.severity),
                file: None,
            },
            timestamp: t,
            thread_id: thread,
        };
        let ghost lm = log@;
        self.logs.push(log);
        proof {
            let new = self.spans@[i as int]@;
            let m2 = StoreModel { logs: m1.logs.push(lm), ..m1 };
            assert(self@.logs =~= m2.logs);
            assert(self@.spans =~= m2.spans.update(i as int, new));
            lemma_push_log_resolves(m1, lm);
            lemma_update_adding_log(m2, slots, i as int, new, id);
        }
    }

    /// A span creation: the parent gains a child (or the span becomes a root), the actor is
    /// recorded, and the span is inserted, replacing one of the same context in place.
    fn create_span(&mut self, process: ProcessId, thread: BareThreadId, s: SpanCreateMessage)
        requires
            old(self).wf(),
            tracing_ok(old(self)@, process, TracingMessage::CreateSpan(s)),
        ensures
            final(self).wf(),
            final(self)@ == create_step(old(self)@, process, thread, s),
    {
        broadcast use vstd::string::to_string_from_display_ensures_for_str;

        let ghost m0 = self@;
        let t = self.update_timestamp(s.start_time_unix_nano);
        let ghost m1 = self@;
        let ghost slots1 = span_slots(self.span_index);
        let ctx = SpanContext::new(process, s.span_id);
        let parent: Option<SpanContext> = match s.parent_span_id {
            Some(p) => Some(SpanContext::new(process, p)),
            None => None,
        };
        assert(parent == parent_context(process, s));
        assert(ctx == context_in(process, s.span_id));
        let mut inherited: Option<String> = None;
        match parent {
            Some(p) => {
                let i = self.find(p).unwrap();
                let sp = span_at_mut(&mut self.spans, i);
                sp.children.push(ctx);
                inherited = Some(sp.actor.clone());
                proof {
                    let new = self.spans@[i as int]@;
                    assert(self@.spans =~= m1.spans.update(i as int, new));
                    assert(new =~= SpanModel {
                        children: span_of(m1.spans, p).children.push(ctx),
                        ..span_of(m1.spans, p)
                    });
                    lemma_update_same_context(m1.spans, i as int, new);
                }
            },
            None => {
                roots_insert(&mut self.root_spans, span_key(ctx));
            },
        }
        let ghost spans1 = self@.spans;
        assert(spans1 == with_child(m1.spans, parent, ctx));
        assert(span_contexts(spans1) == span_contexts(m1.spans));
        proof {
            lemma_index_same_contexts(m1.spans, spans1, slots1);
        }
        let fields = fields_from(&s.attributes);
        let actor = span_actor(&fields, inherited);
        proof {
            if let Some(p) = parent {
                assert(pos_of(spans1, p) == pos_of(m1.spans, p));
            }
        }
        assert(actor@ == created_actor(spans1, parent, fields_of(s.attributes@)));
        self.note_actor(&actor);
        let span = Span {
            context: ctx,
            fields,
            parent,
            children: Vec::new(),
            links: Vec::new(),
            logs: Vec::new(),
            start: t,
            end: Timestamp(i64::MAX),
            actor,
            activity: Vec::new(),
            thread_id: thread,
            metadata: Metadata {
                name: s.name.clone(),
                target: "unknown".to_string(),
                level: Level::Info,
                file: None,
            },
        };
        let ghost new = span@;
        assert(new =~= created_span(
            ctx,
            parent,
            fields_of(s.attributes@),
            actor@,
            s.name@,
            s.start_time_unix_nano as i64,
            thread,
        ));
        match self.find(ctx) {
            Some(j) => {
                self.spans.set(j, span);
                proof {
                    assert(self@.spans =~= spans1.update(j as int, new));
                    lemma_pos_of_present(spans1, ctx);
                    lemma_update_same_context(spans1, j as int, new);
                    lemma_index_same_contexts(spans1, self@.spans, slots1);
                }
            },
            None => {
                let n = self.spans.len();
                self.spans.push(span);
                slots_insert(&mut self.span_index, span_key(ctx), n);
                proof {
                    assert(self.spans.len() == n + 1);
                    assert(self@.spans =~= spans1.push(new));
                    lemma_push_index(spans1, slots1, new);
                }
            },
        }
        proof {
            assert(self@ =~= create_step(m0, process, thread, s));
            lemma_create_resolves(m0, process, thread, s);
        }
    }

    /// Processes a single tracing message of a thread.
    fn process_tracing_message(&mut self, thread_id: ThreadId, tracing_msg: TracingMessage)
        requires
            old(self).wf(),
            has_span(old(self)@.spans, program_context()),
            tracing_ok(old(self)@, thread_process(thread_id), tracing_msg),
        ensures
            final(self).wf(),
            final(self)@ == tracing_step(old(self)@, thread_process(thread_id), bare_thread(thread_id), tracing_msg),
    {
        let process = thread_id.process();
        let thread = BareThreadId(thread_id.raw());
        match tracing_msg {
            TracingMessage::CreateSpan(span_msg) => self.create_span(process, thread, span_msg),
            TracingMessage::EnterSpan(enter_msg) => self.enter_span(process, enter_msg),
            TracingMessage::ExitSpan(exit_msg) => self.exit_span(process, exit_msg),
            TracingMessage::CloseSpan(close_msg) => self.close_span(process, close_msg),
            TracingMessage::AddEvent(event_msg) => self.add_event(process, thread, event_msg),
            TracingMessage::AddLink(link_msg) => self.add_link(process, link_msg),
            TracingMessage::SetAttribute(attr_msg) => self.set_attribute(process, attr_msg),
        }
    }

    /// Processes a single message from a trace: the program span is ensured, then the
    /// message takes effect as [`apply_message`] says.
    ///
    /// Can also be used to process streaming data live.
    pub fn process_message(&mut self, instance_message: InstanceMessage)
        requires
            old(self).wf(),
            message_ok(old(self)@, instance_message),
        ensures
            final(self).wf(),
            final(self)@ == apply_message(old(self)@, instance_message),
    {
        self.ensure_program_span();
        let InstanceMessage { thread_id, message } = instance_message;
        match message {
            TelemetryMessage::Tracing(tracing_msg) => {
                self.process_tracing_message(thread_id, tracing_msg);
            },
            TelemetryMessage::Log(log_msg) => {
                let process = thread_id.process();
                self.record_log(process, BareThreadId(thread_id.raw()), log_msg);
            },
            TelemetryMessage::TimeSync(_) => {},
        }
    }
}

impl Store {
    /// Whether a span of context `c` is present once the program span is ensured.
    fn present_after_program(&self, c: SpanContext) -> (r: bool)
        requires
            self.index_ok(),
        ensures
            r == has_span(ensure_program(self@).spans, c),
    {
        proof {
            lemma_ensure_program_lookup(self@, c);
        }
        let program = SpanContext::new(ProcessId::from_raw(0), SpanId(0));
        assert(program == program_context());
        self.find(c).is_some() || c == program
    }

    /// Whether [`Store::process_message`] can take a message: every span it names exists once
    /// the program span is ensured, and a span being exited has an activity period. Log and
    /// time-sync messages are always taken.
    pub fn accepts(&self, msg: &InstanceMessage) -> (r: bool)
        requires
            self.wf(),
        ensures
            r == message_ok(self@, *msg),
    {
        let process = msg.thread_id.process();
        match &msg.message {
            TelemetryMessage::Tracing(t) => match t {
                TracingMessage::CreateSpan(s) => match s.parent_span_id {
                    Some(p) => self.present_after_program(SpanContext::new(process, p)),
                    None => true,
                },
                TracingMessage::EnterSpan(e) => self.present_after_program(
                    SpanContext::new(process, e.span_id),
                ),
                TracingMessage::ExitSpan(e) => {
                    let c = SpanContext::new(process, e.span_id);
                    proof {
                        lemma_ensure_program_lookup(self@, c);
                    }
                    match self.find(c) {
                        Some(i) => self.spans[i].activity.len() > 0,
                        None => false,
                    }
                },
                TracingMessage::CloseSpan(e) => self.present_after_program(
                    SpanContext::new(process, e.span_id),
                ),
                TracingMessage::AddEvent(e) => self.present_after_program(
                    target_of(process, e.span_id),
                ),
                TracingMessage::AddLink(l) => self.present_after_program(
                    target_of(process, l.span_id),
                ),
                TracingMessage::SetAttribute(a) => self.present_after_program(
                    target_of(process, a.span_id),
                ),
            },
            _ => true,
        }
    }
}

/// A reference to a span in the store, with accessors for its children and logs.
#[derive(Debug, Copy, Clone)]
pub struct SpanRef<'a> {
    store: &'a Store,
    span: &'a Span,
}

impl<'a> View for SpanRef<'a> {
    type V = SpanModel;

    closed spec fn view(&self) -> SpanModel {
        self.span@
    }
}

impl<'a> SpanRef<'a> {
    /// The span itself, as a value.
    pub closed spec fn entry(&self) -> Span {
        *self.span
    }

    /// The model of the store the span belongs to.
    pub closed spec fn store_model(&self) -> StoreModel {
        self.store@
    }

    /// The store is consistent and the span is its span of that context.
    #[verifier::type_invariant]
    closed spec fn inv(&self) -> bool {
        &&& self.store.wf()
        &&& has_span(self.store@.spans, self.span@.context)
        &&& self.span@ == span_of(self.store@.spans, self.span@.context)
    }

    /// The span of context `context` in `store`, if there is one.
    fn new(store: &'a Store, context: SpanContext) -> (r: Option<Self>)
        requires
            store.wf(),
        ensures
            match r {
                Some(sr) => has_span(store@.spans, context) && sr@ == span_of(store@.spans, context)
                    && sr.store_model() == store@ && sr@.context == context,
                None => !has_span(store@.spans, context),
            },
    {
        match store.find(context) {
            Some(i) => {
                proof {
                    lemma_pos_of_present(store@.spans, context);
                }
                Some(SpanRef { store, span: &store.spans[i] })
            },
            None => None,
        }
    }

    /// How many spans the store holds.
    pub fn store_span_count(&self) -> (r: usize)
        ensures
            r == self.store_model().spans.len(),
    {
        self.store.spans.len()
    }

    /// The span itself.
    pub fn span(&self) -> (r: &'a Span)
        ensures
            r@ == self@,
            *r == self.entry(),
    {
        self.span
    }

    /// References to all child spans, in the order they were created. Every child exists.
    pub fn children(&self) -> (r: Vec<SpanRef<'a>>)
        ensures
            self@ == span_of(self.store_model().spans, self@.context),
            r.len() == self@.children.len(),
            forall|i: int|
                0 <= i < r.len() ==> (#[trigger] r[i])@ == span_of(
                    self.store_model().spans,
                    self@.children[i],
                ) && r[i].store_model() == self.store_model() && r[i]@.context == self@.children[i],
    {
        proof {
            use_type_invariant(self);
            let m = self.store@;
            let k = pos_of(m.spans, self.span@.context);
            lemma_pos_of_present(m.spans, self.span@.context);
            assert(span_refs_resolve(m.spans[k], m.spans, m.logs.len()));
        }
        let mut out: Vec<SpanRef<'a>> = Vec::new();
        let n = self.span.children.len();
        for i in 0..n
            invariant
                n == self@.children.len(),
                self.store.wf(),
                span_refs_resolve(self@, self.store@.spans, self.store@.logs.len()),
                out.len() == i,
                forall|j: int|
                    0 <= j < i ==> (#[trigger] out[j])@ == span_of(
                        self.store_model().spans,
                        self@.children[j],
                    ) && out[j].store_model() == self.store_model() && out[j]@.context
                        == self@.children[j],
        {
            let c = self.span.children[i];
            assert(has_span(self.store@.spans, self@.children[i as int]));
            let child = SpanRef::new(self.store, c).unwrap();
            out.push(child);
        }
        out
    }

    /// References to all logs of the span, in the order they were recorded. Every log exists.
    pub fn logs(&self) -> (r: Vec<LogRef<'a>>)
        ensures
            r.len() == self@.logs.len(),
            forall|i: int|
                0 <= i < r.len() ==> (#[trigger] r[i])@ == self.store_model().logs[self@.logs[i]@ as int],
    {
        proof {
            use_type_invariant(self);
            let m = self.store@;
            let k = pos_of(m.spans, self.span@.context);
            lemma_pos_of_present(m.spans, self.span@.context);
            assert(span_refs_resolve(m.spans[k], m.spans, m.logs.len()));
        }
        let mut out: Vec<LogRef<'a>> = Vec::new();
        let n = self.span.logs.len();
        for i in 0..n
            invariant
                n == self@.logs.len(),
                span_refs_resolve(self@, self.store@.spans, self.store@.logs.len()),
                out.len() == i,
                forall|j: int|
                    0 <= j < i ==> (#[trigger] out[j])@ == self.store_model().logs[self@.logs[j]@ as int],
        {
            let id = self.span.logs[i];
            assert(self@.logs[i as int]@ < self.store@.logs.len());
            let log = LogRef::new(self.store, id).unwrap();
            out.push(log);
        }
        out
    }
}

/// A reference to a log in the store.
#[derive(Debug, Copy, Clone)]
pub struct LogRef<'a> {
    log: &'a Log,
}

impl<'a> View for LogRef<'a> {
    type V = LogModel;

    closed spec fn view(&self) -> LogModel {
        self.log@
    }
}

impl<'a> LogRef<'a> {
    /// The log itself, as a value.
    pub closed spec fn entry(&self) -> Log {
        *self.log
    }

    /// The log of id `id` in `store`, if there is one.
    fn new(store: &'a Store, id: LogId) -> (r: Option<Self>)
        ensures
            match r {
                Some(lr) => id@ < store@.logs.len() && lr@ == store@.logs[id@ as int],
                None => id@ >= store@.logs.len(),
            },
    {
        if id.0 < store.logs.len() {
            Some(LogRef { log: &store.logs[id.0] })
        } else {
            None
        }
    }

    /// The log itself.
    pub fn log(&self) -> (r: &'a Log)
        ensures
            r@ == self@,
            *r == self.entry(),
    {
        self.log
    }
}

impl Store {
    /// The span with the given context, if the store has one.
    pub fn get_span(&self, context: SpanContext) -> (r: Option<SpanRef<'_>>)
        requires
            self.wf(),
        ensures
            match r {
                Some(sr) => has_span(self@.spans, context) && sr@ == span_of(self@.spans, context)
                    && sr.store_model() == self@ && sr@.context == context,
                None => !has_span(self@.spans, context),
            },
    {
        SpanRef::new(self, context)
    }

    /// The log with the given id, if the store has one.
    pub fn get_log(&self, id: LogId) -> (r: Option<LogRef<'_>>)
        ensures
            match r {
                Some(lr) => id@ < self@.logs.len() && lr@ == self@.logs[id@ as int],
                None => id@ >= self@.logs.len(),
            },
    {
        LogRef::new(self, id)
    }

    /// References to all root spans, in the order they were first seen. Every root exists.
    pub fn root_spans(&self) -> (r: Vec<SpanRef<'_>>)
        requires
            self.wf(),
        ensures
            r.len() == self@.roots.len(),
            forall|i: int|
                0 <= i < r.len() ==> key_of((#[trigger] r[i])@.context) == self@.roots[i]
                    && r[i]@ == span_of(self@.spans, r[i]@.context) && has_span(
                    self@.spans,
                    r[i]@.context,
                ) && r[i].store_model() == self@,
    {
        let mut out: Vec<SpanRef<'_>> = Vec::new();
        let n = roots_len(&self.root_spans);
        for i in 0..n
            invariant
                self.wf(),
                n == self@.roots.len(),
                out.len() == i,
                forall|j: int|
                    0 <= j < i ==> key_of((#[trigger] out[j])@.context) == self@.roots[j]
                        && out[j]@ == span_of(self@.spans, out[j]@.context) && has_span(
                        self@.spans,
                        out[j]@.context,
                    ) && out[j].store_model() == self@,
        {
            let k = roots_get(&self.root_spans, i).unwrap();
            let ghost spans = self@.spans;
            let ghost slots = span_slots(self.span_index);
            assert(span_keys(spans).contains(self@.roots[i as int]));
            let p = slots_get(&self.span_index, k);
            proof {
                let w = span_keys(spans).index_of(k);
                assert(span_keys(spans)[w] == key_of(spans[w].context));
                assert(slots.contains_key(key_of(spans[w].context)));
            }
            let pos = p.unwrap();
            let c = self.spans[pos].context;
            proof {
                assert(slots.contains_key(k));
                assert(spans[pos as int].context == c);
                lemma_pos_of_unique(spans, pos as int, c);
            }
            let sr = SpanRef::new(self, c).unwrap();
            out.push(sr);
        }
        out
    }

    /// The store's logs, as values, in the order they were recorded.
    pub closed spec fn log_values(&self) -> Seq<Log> {
        self.logs@
    }

    /// References to all logs, in the order they were recorded.
    pub fn logs(&self) -> (r: Vec<LogRef<'_>>)
        ensures
            r.len() == self@.logs.len(),
            r.len() == self.log_values().len(),
            forall|i: int| 0 <= i < r.len() ==> (#[trigger] r[i])@ == self@.logs[i],
            forall|i: int| 0 <= i < r.len() ==> (#[trigger] r[i]).entry() == self.log_values()[i],
    {
        let mut out: Vec<LogRef<'_>> = Vec::new();
        let n = self.logs.len();
        for i in 0..n
            invariant
                n == self.logs.len(),
                out.len() == i,
                forall|j: int| 0 <= j < i ==> (#[trigger] out[j])@ == self@.logs[j],
                forall|j: int| 0 <= j < i ==> (#[trigger] out[j]).entry() == self.log_values()[j],
        {
            out.push(LogRef { log: &self.logs[i] });
        }
        out
    }

    /// All actors seen by the store, each once, in the order they were first seen.
    pub fn actors(&self) -> (r: Vec<&str>)
        ensures
            r.len() == self@.actors.len(),
            forall|i: int| 0 <= i < r.len() ==> (#[trigger] r[i])@ == self@.actors[i],
    {
        let mut out: Vec<&str> = Vec::new();
        let n = self.actors.len();
        for i in 0..n
            invariant
                n == self.actors.len(),
                out.len() == i,
                forall|j: int| 0 <= j < i ==> (#[trigger] out[j])@ == self@.actors[j],
        {
            out.push(self.actors[i].as_str());
        }
        out
    }

    /// The references of a consistent store resolve: every root, parent and child names a
    /// span, every span's logs exist, and each log's id is its position.
    pub proof fn lemma_wf_references(&self)
        requires
            self.wf(),
        ensures
            references_resolve(self@),
    {
    }
}

} // verus!
