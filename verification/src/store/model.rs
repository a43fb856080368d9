//! The mathematical model of a [`Store`](super::Store) and what each message does to it.
//!
//! A store is a sequence of spans (in creation order, each context at most once), the keys of
//! the root spans, the logs (each log's id is its position), the actors seen, and the time
//! bounds. [`apply_message`] says exactly how one message changes that model.

use vstd::prelude::*;
use crate::id::{process_id_of, thread_process, ProcessId, SpanContext, SpanId};
use crate::protocol::{
    InstanceMessage, ThreadId as BareThreadId, KeyValue, LogMessage, SpanAddEventMessage, SpanAddLinkMessage,
    SpanCloseMessage, SpanCreateMessage, SpanEnterMessage, SpanExitMessage,
    SpanSetAttributeMessage, TelemetryMessage, TracingMessage,
};
use super::{
    entries_insert, entry_index, level_of, log_id_of, max_i64, min_i64, timestamp_of, value_of,
    ActivityPeriod, Level, LogModel, MetadataModel, SpanKey, SpanModel, Value,
};

verus! {

/// The mathematical form of a [`Store`](super::Store).
#[verifier::ext_equal]
pub struct StoreModel {
    /// The spans, in creation order.
    pub spans: Seq<SpanModel>,
    /// The keys of root spans, in first-seen order.
    pub roots: Seq<SpanKey>,
    /// The logs; each log's id is its position.
    pub logs: Seq<LogModel>,
    /// The actors seen, each once, in first-seen order.
    pub actors: Seq<Seq<char>>,
    /// The earliest known timestamp.
    pub start: i64,
    /// The latest known timestamp.
    pub end: i64,
    /// Whether the data source is continuous.
    pub continuous: bool,
}

/// The model of an empty store: no data, the time bounds inverted so that the first timestamp
/// becomes both.
pub open spec fn empty_model() -> StoreModel {
    StoreModel {
        spans: Seq::empty(),
        roots: Seq::empty(),
        logs: Seq::empty(),
        actors: Seq::empty(),
        start: i64::MAX,
        end: i64::MIN,
        continuous: false,
    }
}

/// The index key of a span context: its process number and span number.
pub open spec fn key_of(c: SpanContext) -> SpanKey {
    (c.process_id@, c.span_id.0)
}

/// The contexts of a span sequence, in order.
pub open spec fn span_contexts(spans: Seq<SpanModel>) -> Seq<SpanContext> {
    spans.map_values(|s: SpanModel| s.context)
}

/// The index keys of a span sequence, in order.
pub open spec fn span_keys(spans: Seq<SpanModel>) -> Seq<SpanKey> {
    spans.map_values(|s: SpanModel| key_of(s.context))
}

/// Whether some span has context `c`.
pub open spec fn has_span(spans: Seq<SpanModel>, c: SpanContext) -> bool {
    span_contexts(spans).contains(c)
}

/// The position of the span with context `c`.
pub open spec fn pos_of(spans: Seq<SpanModel>, c: SpanContext) -> int {
    span_contexts(spans).index_of(c)
}

/// The span with context `c`.
pub open spec fn span_of(spans: Seq<SpanModel>, c: SpanContext) -> SpanModel {
    spans[pos_of(spans, c)]
}

/// The spans with the span of context `c` replaced by `s`.
pub open spec fn update_span(spans: Seq<SpanModel>, c: SpanContext, s: SpanModel) -> Seq<SpanModel> {
    spans.update(pos_of(spans, c), s)
}

/// No two spans share a context.
pub open spec fn contexts_unique(spans: Seq<SpanModel>) -> bool {
    span_contexts(spans).no_duplicates()
}

/// The context of a span of process `process`.
pub open spec fn context_in(process: ProcessId, id: SpanId) -> SpanContext {
    SpanContext { process_id: process, span_id: id }
}

/// The context of the program span, which collects logs that belong to no known span.
pub open spec fn program_context() -> SpanContext {
    context_in(process_id_of(0), SpanId(0))
}

/// The thread a message came from, as spans, logs and the thread filter name it: its thread
/// number.
pub open spec fn bare_thread(t: crate::id::ThreadId) -> BareThreadId {
    BareThreadId(t@.1)
}

/// The program span as first inserted.
pub open spec fn program_span_model() -> SpanModel {
    SpanModel {
        context: program_context(),
        fields: Seq::empty(),
        parent: None,
        children: Seq::empty(),
        links: Seq::empty(),
        logs: Seq::empty(),
        start: 0,
        end: 0,
        actor: "None"@,
        activity: Seq::empty(),
        thread_id: BareThreadId(0),
        metadata: MetadataModel {
            name: "program"@,
            target: "program"@,
            level: Level::Info,
            file: None,
        },
    }
}

/// The references a span holds (children, parent, logs) point into `spans` and into a log list
/// of length `nlogs`.
pub open spec fn span_refs_resolve(s: SpanModel, spans: Seq<SpanModel>, nlogs: nat) -> bool {
    &&& forall|j: int| 0 <= j < s.children.len() ==> has_span(spans, #[trigger] s.children[j])
    &&& (s.parent matches Some(p) ==> has_span(spans, p))
    &&& forall|j: int| 0 <= j < s.logs.len() ==> (#[trigger] s.logs[j])@ < nlogs
}

/// Every reference of a store points at something that exists: roots, parents and children
/// name spans, span logs name logs, each log's id is its position; no context, root or actor
/// occurs twice.
pub open spec fn references_resolve(m: StoreModel) -> bool {
    &&& forall|i: int| 0 <= i < m.roots.len() ==> span_keys(m.spans).contains(#[trigger] m.roots[i])
    &&& forall|i: int|
        0 <= i < m.spans.len() ==> span_refs_resolve(#[trigger] m.spans[i], m.spans, m.logs.len())
    &&& forall|i: int| 0 <= i < m.logs.len() ==> (#[trigger] m.logs[i]).id@ == i
    &&& contexts_unique(m.spans)
    &&& m.roots.no_duplicates()
    &&& m.actors.no_duplicates()
}

/// `s` with `x` appended unless it is already there.
pub open spec fn insert_unique<T>(s: Seq<T>, x: T) -> Seq<T> {
    if s.contains(x) {
        s
    } else {
        s.push(x)
    }
}

/// The fields built from attributes, in order: a repeated key keeps its first place and takes
/// the last value.
pub open spec fn fields_of(kvs: Seq<KeyValue>) -> Seq<(Seq<char>, Value)>
    decreases kvs.len(),
{
    if kvs.len() == 0 {
        Seq::empty()
    } else {
        entries_insert(fields_of(kvs.drop_last()), kvs.last().key@, value_of(kvs.last().value))
    }
}

/// The actor named by a span's fields: the `actor` field, if it holds a string.
pub open spec fn actor_field(fields: Seq<(Seq<char>, Value)>) -> Option<Seq<char>> {
    match entry_index(fields, "actor"@) {
        Some(i) => match fields[i as int].1 {
            Value::Str(s) => Some(s@),
            _ => None,
        },
        None => None,
    }
}

/// The model with the time bounds widened to cover `t` (read as signed nanoseconds).
pub open spec fn bump(m: StoreModel, t: u64) -> StoreModel {
    StoreModel { start: min_i64(m.start, t as i64), end: max_i64(m.end, t as i64), ..m }
}

/// The model with the program span present.
pub open spec fn ensure_program(m: StoreModel) -> StoreModel {
    if has_span(m.spans, program_context()) {
        m
    } else {
        StoreModel { spans: m.spans.push(program_span_model()), ..m }
    }
}

/// The parent context named by a span creation.
pub open spec fn parent_context(process: ProcessId, s: SpanCreateMessage) -> Option<SpanContext> {
    match s.parent_span_id {
        Some(p) => Some(context_in(process, p)),
        None => None,
    }
}

/// The span a creation message makes.
pub open spec fn created_span(
    ctx: SpanContext,
    parent: Option<SpanContext>,
    fields: Seq<(Seq<char>, Value)>,
    actor: Seq<char>,
    name: Seq<char>,
    t: i64,
    thread: BareThreadId,
) -> SpanModel {
    SpanModel {
        context: ctx,
        fields,
        parent,
        children: Seq::empty(),
        links: Seq::empty(),
        logs: Seq::empty(),
        start: t,
        end: i64::MAX,
        actor,
        activity: Seq::empty(),
        thread_id: thread,
        metadata: MetadataModel { name, target: "unknown"@, level: Level::Info, file: None },
    }
}

/// The spans after the parent (if any) records `ctx` as a child.
pub open spec fn with_child(spans: Seq<SpanModel>, parent: Option<SpanContext>, ctx: SpanContext) -> Seq<SpanModel> {
    match parent {
        Some(p) => update_span(
            spans,
            p,
            SpanModel { children: span_of(spans, p).children.push(ctx), ..span_of(spans, p) },
        ),
        None => spans,
    }
}

/// The actor of a new span: its `actor` field, else its parent's actor, else `None`.
pub open spec fn created_actor(
    spans: Seq<SpanModel>,
    parent: Option<SpanContext>,
    fields: Seq<(Seq<char>, Value)>,
) -> Seq<char> {
    match actor_field(fields) {
        Some(a) => a,
        None => match parent {
            Some(p) => span_of(spans, p).actor,
            None => "None"@,
        },
    }
}

/// A span creation: the parent gains a child (or the span becomes a root), the actor is
/// recorded, and the span is inserted, replacing one of the same context in place.
pub open spec fn create_step(m: StoreModel, process: ProcessId, thread: BareThreadId, s: SpanCreateMessage) -> StoreModel {
    let m1 = bump(m, s.start_time_unix_nano);
    let ctx = context_in(process, s.span_id);
    let parent = parent_context(process, s);
    let spans1 = with_child(m1.spans, parent, ctx);
    let fields = fields_of(s.attributes@);
    let actor = created_actor(spans1, parent, fields);
    let span = created_span(ctx, parent, fields, actor, s.name@, s.start_time_unix_nano as i64, thread);
    StoreModel {
        spans: if has_span(spans1, ctx) {
            update_span(spans1, ctx, span)
        } else {
            spans1.push(span)
        },
        roots: if parent is Some {
            m1.roots
        } else {
            insert_unique(m1.roots, key_of(ctx))
        },
        actors: insert_unique(m1.actors, actor),
        ..m1
    }
}

/// Entering a span: its start moves back to the entry time if earlier, and an open activity
/// period begins.
pub open spec fn enter_step(m: StoreModel, process: ProcessId, e: SpanEnterMessage) -> StoreModel {
    let m1 = bump(m, e.time_unix_nano);
    let t = e.time_unix_nano as i64;
    let c = context_in(process, e.span_id);
    let s = span_of(m1.spans, c);
    let period = ActivityPeriod { start: timestamp_of(t), end: timestamp_of(i64::MAX) };
    StoreModel {
        spans: update_span(
            m1.spans,
            c,
            SpanModel { start: min_i64(s.start, t), activity: s.activity.push(period), ..s },
        ),
        ..m1
    }
}

/// Exiting a span: its last activity period ends now, and the program span's end moves
/// forward to now if later.
pub open spec fn exit_step(m: StoreModel, process: ProcessId, e: SpanExitMessage) -> StoreModel {
    let m1 = bump(m, e.time_unix_nano);
    let t = e.time_unix_nano as i64;
    let c = context_in(process, e.span_id);
    let s = span_of(m1.spans, c);
    let n = s.activity.len() - 1;
    let closed = ActivityPeriod { start: s.activity[n].start, end: timestamp_of(t) };
    let spans1 = update_span(m1.spans, c, SpanModel { activity: s.activity.update(n, closed), ..s });
    let p = span_of(spans1, program_context());
    StoreModel {
        spans: update_span(spans1, program_context(), SpanModel { end: max_i64(p.end, t), ..p }),
        ..m1
    }
}

/// Closing a span: it ends where its last activity period ended, or now if it never ran.
pub open spec fn close_step(m: StoreModel, process: ProcessId, e: SpanCloseMessage) -> StoreModel {
    let m1 = bump(m, e.end_time_unix_nano);
    let t = e.end_time_unix_nano as i64;
    let c = context_in(process, e.span_id);
    let s = span_of(m1.spans, c);
    let end = if s.activity.len() == 0 {
        t
    } else {
        s.activity.last().end@
    };
    StoreModel { spans: update_span(m1.spans, c, SpanModel { end, ..s }), ..m1 }
}

/// An event on a span: a new log, next in line, attached to the span and in the span's actor.
pub open spec fn event_step(m: StoreModel, process: ProcessId, thread: BareThreadId, e: SpanAddEventMessage) -> StoreModel {
    let m1 = bump(m, e.time_unix_nano);
    let c = target_context(process, e.span_id);
    let s = span_of(m1.spans, c);
    let id = log_id_of(m1.logs.len() as usize);
    let log = LogModel {
        id,
        span_context: c,
        fields: fields_of(e.attributes@),
        body: e.name@,
        actor: s.actor,
        metadata: MetadataModel { name: e.name@, target: "unknown"@, level: Level::Info, file: None },
        timestamp: e.time_unix_nano as i64,
        thread_id: thread,
    };
    StoreModel {
        spans: update_span(m1.spans, c, SpanModel { logs: s.logs.push(id), ..s }),
        logs: m1.logs.push(log),
        ..m1
    }
}

/// A link on a span: the linked context is appended to the span's links.
pub open spec fn link_step(m: StoreModel, process: ProcessId, l: SpanAddLinkMessage) -> StoreModel {
    let c = target_context(process, l.span_id);
    let s = span_of(m.spans, c);
    StoreModel { spans: update_span(m.spans, c, SpanModel { links: s.links.push(l.link), ..s }), ..m }
}

/// An attribute on a span: the field is set, keeping its place if it existed.
pub open spec fn attribute_step(m: StoreModel, process: ProcessId, a: SpanSetAttributeMessage) -> StoreModel {
    let c = target_context(process, a.span_id);
    let s = span_of(m.spans, c);
    let fields = entries_insert(s.fields, a.attribute.key@, value_of(a.attribute.value));
    StoreModel { spans: update_span(m.spans, c, SpanModel { fields, ..s }), ..m }
}

/// The context a message names by an optional span id: that span in the thread's process, or
/// the program span when it names none (the store keeps no current span per thread).
pub open spec fn target_context(process: ProcessId, id: Option<SpanId>) -> SpanContext {
    match id {
        Some(id) => context_in(process, id),
        None => program_context(),
    }
}

/// The context a log message names: its span in the thread's process, or the program span.
pub open spec fn log_context(process: ProcessId, l: LogMessage) -> SpanContext {
    target_context(process, l.span_id)
}

/// A log message: a new log, next in line, attached to its span if that span exists and to the
/// program span otherwise.
pub open spec fn log_step(m: StoreModel, process: ProcessId, thread: BareThreadId, l: LogMessage) -> StoreModel {
    let m1 = bump(m, l.time_unix_nano);
    let c = log_context(process, l);
    let target = if has_span(m1.spans, c) {
        c
    } else {
        program_context()
    };
    let s = span_of(m1.spans, target);
    let id = log_id_of(m1.logs.len() as usize);
    let log = LogModel {
        id,
        span_context: c,
        fields: fields_of(l.attributes@),
        body: l.body@,
        actor: s.actor,
        metadata: MetadataModel {
            name: "log"@,
            target: "unknown"@,
            level: level_of(l.severity),
            file: None,
        },
        timestamp: l.time_unix_nano as i64,
        thread_id: thread,
    };
    StoreModel {
        spans: update_span(m1.spans, target, SpanModel { logs: s.logs.push(id), ..s }),
        logs: m1.logs.push(log),
        ..m1
    }
}

/// Whether a tracing message can be applied: the spans it names exist, and a span being
/// exited has an activity period.
pub open spec fn tracing_ok(m: StoreModel, process: ProcessId, t: TracingMessage) -> bool {
    match t {
        TracingMessage::CreateSpan(s) => match parent_context(process, s) {
            Some(p) => has_span(m.spans, p),
            None => true,
        },
        TracingMessage::EnterSpan(e) => has_span(m.spans, context_in(process, e.span_id)),
        TracingMessage::ExitSpan(e) => {
            &&& has_span(m.spans, context_in(process, e.span_id))
            &&& span_of(m.spans, context_in(process, e.span_id)).activity.len() > 0
        },
        TracingMessage::CloseSpan(e) => has_span(m.spans, context_in(process, e.span_id)),
        TracingMessage::AddEvent(e) => has_span(m.spans, target_context(process, e.span_id)),
        TracingMessage::AddLink(l) => has_span(m.spans, target_context(process, l.span_id)),
        TracingMessage::SetAttribute(a) => has_span(m.spans, target_context(process, a.span_id)),
    }
}

/// Whether a message can be applied to a store (after the program span is ensured). Log and
/// time-sync messages always can.
pub open spec fn message_ok(m: StoreModel, msg: InstanceMessage) -> bool {
    match msg.message {
        TelemetryMessage::Tracing(t) => tracing_ok(ensure_program(m), thread_process(msg.thread_id), t),
        _ => true,
    }
}

/// A tracing message applied to a model.
pub open spec fn tracing_step(m: StoreModel, process: ProcessId, thread: BareThreadId, t: TracingMessage) -> StoreModel {
    match t {
        TracingMessage::CreateSpan(s) => create_step(m, process, thread, s),
        TracingMessage::EnterSpan(e) => enter_step(m, process, e),
        TracingMessage::ExitSpan(e) => exit_step(m, process, e),
        TracingMessage::CloseSpan(e) => close_step(m, process, e),
        TracingMessage::AddEvent(e) => event_step(m, process, thread, e),
        TracingMessage::AddLink(l) => link_step(m, process, l),
        TracingMessage::SetAttribute(a) => attribute_step(m, process, a),
    }
}

/// One message applied to a model: the program span is ensured, then the message takes effect
/// in the process of its thread. Time-sync messages change nothing more.
pub open spec fn apply_message(m: StoreModel, msg: InstanceMessage) -> StoreModel {
    let m0 = ensure_program(m);
    let process = thread_process(msg.thread_id);
    let thread = bare_thread(msg.thread_id);
    match msg.message {
        TelemetryMessage::Tracing(t) => tracing_step(m0, process, thread, t),
        TelemetryMessage::Log(l) => log_step(m0, process, thread, l),
        TelemetryMessage::TimeSync(_) => m0,
    }
}

// ---------------------------------------------------------------------------------------------
// Facts about span sequences
// ---------------------------------------------------------------------------------------------

/// Two contexts with the same key are the same context.
pub proof fn lemma_key_of_injective(a: SpanContext, b: SpanContext)
    ensures
        key_of(a) == key_of(b) ==> a == b,
{
    broadcast use crate::id::lemma_process_id_view_injective;
}

/// Where a span with context `c` sits, `pos_of` names it, provided no context repeats.
pub proof fn lemma_pos_of_unique(spans: Seq<SpanModel>, i: int, c: SpanContext)
    requires
        contexts_unique(spans),
        0 <= i < spans.len(),
        spans[i].context == c,
    ensures
        has_span(spans, c),
        pos_of(spans, c) == i,
{
    let cs = span_contexts(spans);
    assert(cs[i] == c);
    assert(cs.contains(c));
}

/// A present span sits at `pos_of`.
pub proof fn lemma_pos_of_present(spans: Seq<SpanModel>, c: SpanContext)
    requires
        has_span(spans, c),
    ensures
        0 <= pos_of(spans, c) < spans.len(),
        spans[pos_of(spans, c)].context == c,
{
}

/// Replacing a span by one of the same context changes no context, key or position.
pub proof fn lemma_update_same_context(spans: Seq<SpanModel>, i: int, s: SpanModel)
    requires
        0 <= i < spans.len(),
        s.context == spans[i].context,
    ensures
        span_contexts(spans.update(i, s)) == span_contexts(spans),
        span_keys(spans.update(i, s)) == span_keys(spans),
{
    assert(span_contexts(spans.update(i, s)) =~= span_contexts(spans));
    assert(span_keys(spans.update(i, s)) =~= span_keys(spans));
}

/// Appending a span appends its context and key; every span present stays present.
pub proof fn lemma_push_span(spans: Seq<SpanModel>, s: SpanModel)
    ensures
        span_contexts(spans.push(s)) == span_contexts(spans).push(s.context),
        span_keys(spans.push(s)) == span_keys(spans).push(key_of(s.context)),
        has_span(spans.push(s), s.context),
        forall|c: SpanContext| #[trigger] has_span(spans, c) ==> has_span(spans.push(s), c),
        forall|k: SpanKey|
            #[trigger] span_keys(spans).contains(k) ==> span_keys(spans.push(s)).contains(k),
{
    assert(span_contexts(spans.push(s)) =~= span_contexts(spans).push(s.context));
    assert(span_keys(spans.push(s)) =~= span_keys(spans).push(key_of(s.context)));
    assert(span_contexts(spans.push(s))[spans.len() as int] == s.context);
    assert forall|c: SpanContext| #[trigger] has_span(spans, c) implies has_span(
        spans.push(s),
        c,
    ) by {
        let i = span_contexts(spans).index_of(c);
        assert(span_contexts(spans.push(s))[i] == c);
    }
    assert forall|k: SpanKey| #[trigger] span_keys(spans).contains(k) implies span_keys(
        spans.push(s),
    ).contains(k) by {
        let i = span_keys(spans).index_of(k);
        assert(span_keys(spans.push(s))[i] == k);
    }
}

/// A span's references that resolve against `spans` and `n` logs still resolve against any
/// spans with at least the same contexts and at least as many logs.
pub proof fn lemma_refs_grow(s: SpanModel, spans: Seq<SpanModel>, n: nat, spans2: Seq<SpanModel>, n2: nat)
    requires
        span_refs_resolve(s, spans, n),
        forall|c: SpanContext| #[trigger] has_span(spans, c) ==> has_span(spans2, c),
        n <= n2,
    ensures
        span_refs_resolve(s, spans2, n2),
{
    assert forall|j: int| 0 <= j < s.children.len() implies has_span(
        spans2,
        #[trigger] s.children[j],
    ) by {
        assert(has_span(spans, s.children[j]));
    }
    if let Some(p) = s.parent {
        assert(has_span(spans, p));
    }
}

/// Replacing a span by one of the same context whose references resolve keeps a store's
/// references resolving.
pub proof fn lemma_update_span_resolves(m: StoreModel, i: int, s: SpanModel)
    requires
        references_resolve(m),
        0 <= i < m.spans.len(),
        s.context == m.spans[i].context,
        span_refs_resolve(s, m.spans, m.logs.len()),
    ensures
        references_resolve(StoreModel { spans: m.spans.update(i, s), ..m }),
{
    let spans2 = m.spans.update(i, s);
    lemma_update_same_context(m.spans, i, s);
    assert forall|j: int| 0 <= j < spans2.len() implies span_refs_resolve(
        #[trigger] spans2[j],
        spans2,
        m.logs.len(),
    ) by {
        if j == i {
            lemma_refs_grow(s, m.spans, m.logs.len(), spans2, m.logs.len());
        } else {
            assert(span_refs_resolve(m.spans[j], m.spans, m.logs.len()));
            lemma_refs_grow(m.spans[j], m.spans, m.logs.len(), spans2, m.logs.len());
        }
    }
}

/// Appending a span of a new context whose references resolve keeps a store's references
/// resolving.
pub proof fn lemma_push_span_resolves(m: StoreModel, s: SpanModel)
    requires
        references_resolve(m),
        !has_span(m.spans, s.context),
        span_refs_resolve(s, m.spans.push(s), m.logs.len()),
    ensures
        references_resolve(StoreModel { spans: m.spans.push(s), ..m }),
{
    let spans2 = m.spans.push(s);
    lemma_push_span(m.spans, s);
    assert forall|j: int| 0 <= j < spans2.len() implies span_refs_resolve(
        #[trigger] spans2[j],
        spans2,
        m.logs.len(),
    ) by {
        if j < m.spans.len() {
            assert(span_refs_resolve(m.spans[j], m.spans, m.logs.len()));
            lemma_refs_grow(m.spans[j], m.spans, m.logs.len(), spans2, m.logs.len());
        }
    }
    assert forall|i: int| 0 <= i < m.roots.len() implies span_keys(spans2).contains(
        #[trigger] m.roots[i],
    ) by {
        assert(span_keys(m.spans).contains(m.roots[i]));
    }
    assert(span_contexts(spans2).no_duplicates());
}

/// Appending a log whose id is its position keeps a store's references resolving.
pub proof fn lemma_push_log_resolves(m: StoreModel, log: LogModel)
    requires
        references_resolve(m),
        log.id@ == m.logs.len(),
    ensures
        references_resolve(StoreModel { logs: m.logs.push(log), ..m }),
{
    let logs2 = m.logs.push(log);
    assert forall|j: int| 0 <= j < m.spans.len() implies span_refs_resolve(
        #[trigger] m.spans[j],
        m.spans,
        logs2.len(),
    ) by {
        assert(span_refs_resolve(m.spans[j], m.spans, m.logs.len()));
        lemma_refs_grow(m.spans[j], m.spans, m.logs.len(), m.spans, logs2.len());
    }
    assert forall|i: int| 0 <= i < logs2.len() implies (#[trigger] logs2[i]).id@ == i by {
        if i < m.logs.len() {
            assert(m.logs[i].id@ == i);
        }
    }
}

/// A span present in a sequence is the one with its context's key.
pub proof fn lemma_key_present(spans: Seq<SpanModel>, c: SpanContext)
    requires
        has_span(spans, c),
    ensures
        span_keys(spans).contains(key_of(c)),
{
    let i = span_contexts(spans).index_of(c);
    assert(span_keys(spans)[i] == key_of(c));
}

/// No element repeats after a unique insertion into a sequence without repeats.
pub proof fn lemma_insert_unique_no_dup<T>(s: Seq<T>, x: T)
    requires
        s.no_duplicates(),
    ensures
        insert_unique(s, x).no_duplicates(),
        insert_unique(s, x).contains(x),
        forall|y: T| #[trigger] s.contains(y) ==> insert_unique(s, x).contains(y),
{
    if !s.contains(x) {
        assert(s.push(x)[s.len() as int] == x);
        assert forall|y: T| #[trigger] s.contains(y) implies s.push(x).contains(y) by {
            let i = s.index_of(y);
            assert(s.push(x)[i] == y);
        }
    }
}

/// Every span present in `spans` has its key among the keys of `spans2` once its context is
/// present there.
proof fn lemma_keys_grow(spans: Seq<SpanModel>, spans2: Seq<SpanModel>)
    requires
        forall|c: SpanContext| #[trigger] has_span(spans, c) ==> has_span(spans2, c),
    ensures
        forall|k: SpanKey| #[trigger] span_keys(spans).contains(k) ==> span_keys(spans2).contains(k),
{
    assert forall|k: SpanKey| #[trigger] span_keys(spans).contains(k) implies span_keys(
        spans2,
    ).contains(k) by {
        let i = span_keys(spans).index_of(k);
        let c = spans[i].context;
        assert(span_contexts(spans)[i] == c);
        assert(has_span(spans, c));
        lemma_key_present(spans2, c);
    }
}

/// A span creation that names an existing parent (or none) keeps a store's references
/// resolving.
pub proof fn lemma_create_resolves(m: StoreModel, process: ProcessId, thread: BareThreadId, s: SpanCreateMessage)
    requires
        references_resolve(m),
        tracing_ok(m, process, TracingMessage::CreateSpan(s)),
    ensures
        references_resolve(create_step(m, process, thread, s)),
{
    let m1 = bump(m, s.start_time_unix_nano);
    let ctx = context_in(process, s.span_id);
    let parent = parent_context(process, s);
    let spans1 = with_child(m1.spans, parent, ctx);
    let fields = fields_of(s.attributes@);
    let actor = created_actor(spans1, parent, fields);
    let span = created_span(ctx, parent, fields, actor, s.name@, s.start_time_unix_nano as i64, thread);
    let r = create_step(m, process, thread, s);
    let spans2 = r.spans;
    let n = m.logs.len();
    // The parent's new child is the only change in `spans1`; contexts stay.
    let ppos = match parent {
        Some(p) => pos_of(m1.spans, p),
        None => -1,
    };
    if let Some(p) = parent {
        lemma_pos_of_present(m1.spans, p);
        lemma_update_same_context(m1.spans, ppos, SpanModel { children: span_of(m1.spans, p).children.push(ctx), ..span_of(m1.spans, p) });
    }
    assert(span_contexts(spans1) == span_contexts(m1.spans));
    // `spans2` holds every context of `spans1`, and `ctx`.
    let cpos = if has_span(spans1, ctx) {
        pos_of(spans1, ctx)
    } else {
        spans1.len() as int
    };
    if has_span(spans1, ctx) {
        lemma_pos_of_present(spans1, ctx);
        lemma_update_same_context(spans1, cpos, span);
        assert(span_contexts(spans2) == span_contexts(spans1));
        assert(has_span(spans2, ctx));
    } else {
        lemma_push_span(spans1, span);
    }
    assert(spans2[cpos] == span);
    assert forall|c: SpanContext| #[trigger] has_span(m.spans, c) implies has_span(spans2, c) by {
        assert(has_span(spans1, c));
    }
    assert(has_span(spans2, ctx));
    // Each span's references resolve against `spans2`.
    assert forall|k: int| 0 <= k < spans2.len() implies span_refs_resolve(
        #[trigger] spans2[k],
        spans2,
        n,
    ) by {
        if k == cpos {
            if let Some(p) = parent {
                assert(has_span(m.spans, p));
            }
        } else {
            assert(spans2[k] == spans1[k]);
            assert(span_refs_resolve(m.spans[k], m.spans, n));
            lemma_refs_grow(m.spans[k], m.spans, n, spans2, n);
            if k == ppos {
                let ps = spans1[k];
                assert forall|j: int| 0 <= j < ps.children.len() implies has_span(
                    spans2,
                    #[trigger] ps.children[j],
                ) by {
                    if j < m.spans[k].children.len() {
                        assert(ps.children[j] == m.spans[k].children[j]);
                    }
                }
            } else {
                assert(spans1[k] == m.spans[k]);
            }
        }
    }
    // Roots name spans.
    lemma_keys_grow(m.spans, spans2);
    lemma_key_present(spans2, ctx);
    lemma_insert_unique_no_dup(m.roots, key_of(ctx));
    lemma_insert_unique_no_dup(m.actors, actor);
    assert forall|i: int| 0 <= i < r.roots.len() implies span_keys(spans2).contains(
        #[trigger] r.roots[i],
    ) by {
        if parent is Some {
            assert(span_keys(m.spans).contains(m.roots[i]));
        } else if i < m.roots.len() {
            assert(r.roots[i] == m.roots[i]);
            assert(span_keys(m.spans).contains(m.roots[i]));
        } else {
            assert(r.roots[i] == key_of(ctx));
        }
    }
    // Contexts stay unique.
    if !has_span(spans1, ctx) {
        let cs = span_contexts(spans1);
        assert forall|a: int, b: int|
            0 <= a < cs.push(ctx).len() && 0 <= b < cs.push(ctx).len() && a != b implies cs.push(
            ctx,
        )[a] != cs.push(ctx)[b] by {
            if a < cs.len() && b < cs.len() {
            } else if a < cs.len() {
                assert(cs[a] != ctx);
            } else {
                assert(cs[b] != ctx);
            }
        }
    }
}

/// What the program span's presence changes in lookups: the program context becomes present,
/// every other span keeps its place, and a freshly inserted program span has not run.
pub proof fn lemma_ensure_program_lookup(m: StoreModel, c: SpanContext)
    requires
        contexts_unique(m.spans),
    ensures
        has_span(ensure_program(m).spans, c) == (has_span(m.spans, c) || c == program_context()),
        contexts_unique(ensure_program(m).spans),
        has_span(m.spans, c) ==> span_of(ensure_program(m).spans, c) == span_of(m.spans, c),
        !has_span(m.spans, c) && c == program_context() ==> span_of(
            ensure_program(m).spans,
            c,
        ).activity.len() == 0,
{
    let prog = program_span_model();
    if !has_span(m.spans, program_context()) {
        let spans2 = m.spans.push(prog);
        lemma_push_span(m.spans, prog);
        let cs = span_contexts(m.spans);
        assert forall|a: int, b: int|
            0 <= a < cs.push(program_context()).len() && 0 <= b < cs.push(program_context()).len()
                && a != b implies cs.push(program_context())[a] != cs.push(program_context())[b] by {
            if a < cs.len() && b < cs.len() {
            } else if a < cs.len() {
                assert(cs[a] != program_context());
            } else {
                assert(cs[b] != program_context());
            }
        }
        assert(contexts_unique(spans2));
        if has_span(spans2, c) && !has_span(m.spans, c) {
            let i = pos_of(spans2, c);
            lemma_pos_of_present(spans2, c);
            if i < m.spans.len() {
                assert(span_contexts(m.spans)[i] == c);
            }
        }
        if has_span(m.spans, c) {
            lemma_pos_of_present(m.spans, c);
            let i = pos_of(m.spans, c);
            assert(spans2[i] == m.spans[i]);
            lemma_pos_of_unique(spans2, i, c);
        }
        if !has_span(m.spans, c) && c == program_context() {
            lemma_pos_of_unique(spans2, m.spans.len() as int, c);
        }
    }
}

/// Ensuring the program span twice is ensuring it once.
pub proof fn lemma_ensure_program_idempotent(m: StoreModel)
    ensures
        ensure_program(ensure_program(m)) == ensure_program(m),
{
    if !has_span(m.spans, program_context()) {
        lemma_push_span(m.spans, program_span_model());
    }
}


/// The timestamp a message carries, read by the store's time bounds: `None` for links,
/// attributes and time-sync messages.
pub open spec fn message_time(msg: InstanceMessage) -> Option<u64> {
    match msg.message {
        TelemetryMessage::Tracing(TracingMessage::CreateSpan(s)) => Some(s.start_time_unix_nano),
        TelemetryMessage::Tracing(TracingMessage::EnterSpan(e)) => Some(e.time_unix_nano),
        TelemetryMessage::Tracing(TracingMessage::ExitSpan(e)) => Some(e.time_unix_nano),
        TelemetryMessage::Tracing(TracingMessage::CloseSpan(e)) => Some(e.end_time_unix_nano),
        TelemetryMessage::Tracing(TracingMessage::AddEvent(e)) => Some(e.time_unix_nano),
        TelemetryMessage::Log(l) => Some(l.time_unix_nano),
        _ => None,
    }
}

/// The store's time bounds only widen: a message with a timestamp moves the start back to it
/// and the end forward to it where it lies outside, so the first timestamp of an empty store
/// becomes both; a message without one leaves the bounds, and the logs, as they were.
pub proof fn lemma_time_bounds(m: StoreModel, msg: InstanceMessage)
    ensures
        match message_time(msg) {
            Some(t) => {
                &&& apply_message(m, msg).start == min_i64(m.start, t as i64)
                &&& apply_message(m, msg).end == max_i64(m.end, t as i64)
            },
            None => {
                &&& apply_message(m, msg).start == m.start
                &&& apply_message(m, msg).end == m.end
                &&& apply_message(m, msg).logs == m.logs
            },
        },
        apply_message(m, msg).start <= m.start,
        apply_message(m, msg).end >= m.end,
        m == empty_model() ==> match message_time(msg) {
            Some(t) => apply_message(m, msg).start == t as i64 && apply_message(m, msg).end == t as i64,
            None => true,
        },
{
}

/// Ensuring the program span changes nothing when it is there, and otherwise only appends it:
/// actor `None`, named and targeted `program`, level `Info`, no file, starting and ending at 0,
/// with no parent; it is no root span.
pub proof fn lemma_ensure_program_adds_only_it(m: StoreModel)
    ensures
        has_span(m.spans, program_context()) ==> ensure_program(m) == m,
        !has_span(m.spans, program_context()) ==> ensure_program(m) == (StoreModel {
            spans: m.spans.push(program_span_model()),
            ..m
        }),
        ensure_program(m).roots == m.roots,
        ensure_program(m).logs == m.logs,
        ensure_program(m).actors == m.actors,
        ensure_program(m).start == m.start,
        ensure_program(m).end == m.end,
        program_span_model().actor == "None"@,
        program_span_model().metadata.name == "program"@,
        program_span_model().metadata.target == "program"@,
        program_span_model().metadata.level == Level::Info,
        program_span_model().metadata.file is None,
        program_span_model().start == 0 && program_span_model().end == 0,
        program_span_model().parent is None,
{
}

/// Replacing a present span by one of its own context keeps every context.
proof fn lemma_update_keeps(spans: Seq<SpanModel>, c: SpanContext, s: SpanModel)
    requires
        has_span(spans, c),
        s.context == c,
    ensures
        span_contexts(update_span(spans, c, s)) == span_contexts(spans),
{
    lemma_pos_of_present(spans, c);
    lemma_update_same_context(spans, pos_of(spans, c), s);
}

/// A modified copy of a present span keeps its context.
proof fn lemma_span_of_context(spans: Seq<SpanModel>, c: SpanContext)
    requires
        has_span(spans, c),
    ensures
        span_of(spans, c).context == c,
{
    lemma_pos_of_present(spans, c);
}

/// No message removes a span, and after any message the program span is present.
pub proof fn lemma_message_keeps_spans(m: StoreModel, msg: InstanceMessage)
    requires
        message_ok(m, msg),
    ensures
        forall|c: SpanContext| #[trigger] has_span(m.spans, c) ==> has_span(apply_message(m, msg).spans, c),
        has_span(apply_message(m, msg).spans, program_context()),
{
    let m0 = ensure_program(m);
    let prog = program_context();
    if !has_span(m.spans, prog) {
        lemma_push_span(m.spans, program_span_model());
    }
    assert(forall|c: SpanContext| #[trigger] has_span(m.spans, c) ==> has_span(m0.spans, c));
    assert(has_span(m0.spans, prog));
    let process = thread_process(msg.thread_id);
    let thread = bare_thread(msg.thread_id);
    let r = apply_message(m, msg);
    // Every step keeps the contexts of `m0`, at least.
    assert(forall|c: SpanContext| #[trigger] has_span(m0.spans, c) ==> has_span(r.spans, c)) by {
        match msg.message {
            TelemetryMessage::Tracing(t) => match t {
                TracingMessage::CreateSpan(sc) => {
                    let m1 = bump(m0, sc.start_time_unix_nano);
                    let ctx = context_in(process, sc.span_id);
                    let parent = parent_context(process, sc);
                    let spans1 = with_child(m1.spans, parent, ctx);
                    if let Some(p) = parent {
                        lemma_span_of_context(m1.spans, p);
                        lemma_update_keeps(
                            m1.spans,
                            p,
                            SpanModel { children: span_of(m1.spans, p).children.push(ctx), ..span_of(m1.spans, p) },
                        );
                    }
                    assert(span_contexts(spans1) == span_contexts(m1.spans));
                    let fields = fields_of(sc.attributes@);
                    let actor = created_actor(spans1, parent, fields);
                    let span = created_span(ctx, parent, fields, actor, sc.name@, sc.start_time_unix_nano as i64, thread);
                    assert(r == create_step(m0, process, thread, sc));
                    assert(r.spans == if has_span(spans1, ctx) {
                        update_span(spans1, ctx, span)
                    } else {
                        spans1.push(span)
                    });
                    if has_span(spans1, ctx) {
                        lemma_update_keeps(spans1, ctx, span);
                    } else {
                        lemma_push_span(spans1, span);
                    }
                    assert forall|c: SpanContext| #[trigger] has_span(m0.spans, c) implies has_span(r.spans, c) by {
                        assert(has_span(m1.spans, c));
                        assert(has_span(spans1, c));
                    }
                },
                TracingMessage::EnterSpan(e) => {
                    let m1 = bump(m0, e.time_unix_nano);
                    let c = context_in(process, e.span_id);
                    lemma_span_of_context(m1.spans, c);
                    let sp = span_of(m1.spans, c);
                    let t = e.time_unix_nano as i64;
                    let period = ActivityPeriod { start: timestamp_of(t), end: timestamp_of(i64::MAX) };
                    lemma_update_keeps(m1.spans, c, SpanModel { start: min_i64(sp.start, t), activity: sp.activity.push(period), ..sp });
                },
                TracingMessage::ExitSpan(e) => {
                    let m1 = bump(m0, e.time_unix_nano);
                    let t = e.time_unix_nano as i64;
                    let c = context_in(process, e.span_id);
                    lemma_span_of_context(m1.spans, c);
                    let sp = span_of(m1.spans, c);
                    let n = sp.activity.len() - 1;
                    let closed = ActivityPeriod { start: sp.activity[n].start, end: timestamp_of(t) };
                    let s2 = SpanModel { activity: sp.activity.update(n, closed), ..sp };
                    lemma_update_keeps(m1.spans, c, s2);
                    let spans1 = update_span(m1.spans, c, s2);
                    assert(has_span(spans1, prog));
                    lemma_span_of_context(spans1, prog);
                    let p = span_of(spans1, prog);
                    lemma_update_keeps(spans1, prog, SpanModel { end: max_i64(p.end, t), ..p });
                },
                TracingMessage::CloseSpan(e) => {
                    let m1 = bump(m0, e.end_time_unix_nano);
                    let t = e.end_time_unix_nano as i64;
                    let c = context_in(process, e.span_id);
                    lemma_span_of_context(m1.spans, c);
                    let sp = span_of(m1.spans, c);
                    let end = if sp.activity.len() == 0 {
                        t
                    } else {
                        sp.activity.last().end@
                    };
                    lemma_update_keeps(m1.spans, c, SpanModel { end, ..sp });
                },
                TracingMessage::AddEvent(e) => {
                    let m1 = bump(m0, e.time_unix_nano);
                    let c = target_context(process, e.span_id);
                    lemma_span_of_context(m1.spans, c);
                    let sp = span_of(m1.spans, c);
                    let id = log_id_of(m1.logs.len() as usize);
                    lemma_update_keeps(m1.spans, c, SpanModel { logs: sp.logs.push(id), ..sp });
                },
                TracingMessage::AddLink(l) => {
                    let c = target_context(process, l.span_id);
                    lemma_span_of_context(m0.spans, c);
                    let sp = span_of(m0.spans, c);
                    lemma_update_keeps(m0.spans, c, SpanModel { links: sp.links.push(l.link), ..sp });
                },
                TracingMessage::SetAttribute(a) => {
                    let c = target_context(process, a.span_id);
                    lemma_span_of_context(m0.spans, c);
                    let sp = span_of(m0.spans, c);
                    let fields = entries_insert(sp.fields, a.attribute.key@, value_of(a.attribute.value));
                    lemma_update_keeps(m0.spans, c, SpanModel { fields, ..sp });
                },
            },
            TelemetryMessage::Log(l) => {
                let m1 = bump(m0, l.time_unix_nano);
                let c = log_context(process, l);
                let target = if has_span(m1.spans, c) {
                    c
                } else {
                    prog
                };
                lemma_span_of_context(m1.spans, target);
                let sp = span_of(m1.spans, target);
                let id = log_id_of(m1.logs.len() as usize);
                lemma_update_keeps(m1.spans, target, SpanModel { logs: sp.logs.push(id), ..sp });
            },
            TelemetryMessage::TimeSync(_) => {},
        }
    }
}


/// A span creation can be read back: afterwards the store has exactly one span of that
/// context, with the name, parent and fields it was created with, and no children yet.
pub proof fn lemma_created_span_found(m: StoreModel, msg: InstanceMessage, s: SpanCreateMessage)
    requires
        references_resolve(m),
        message_ok(m, msg),
        msg.message == TelemetryMessage::Tracing(TracingMessage::CreateSpan(s)),
    ensures
        ({
            let process = thread_process(msg.thread_id);
            let thread = bare_thread(msg.thread_id);
            let ctx = context_in(process, s.span_id);
            let r = apply_message(m, msg);
            &&& has_span(r.spans, ctx)
            &&& contexts_unique(r.spans)
            &&& span_of(r.spans, ctx).context == ctx
            &&& span_of(r.spans, ctx).metadata.name == s.name@
            &&& span_of(r.spans, ctx).parent == parent_context(process, s)
            &&& span_of(r.spans, ctx).fields == fields_of(s.attributes@)
            &&& span_of(r.spans, ctx).children.len() == 0
            &&& span_of(r.spans, ctx).start == s.start_time_unix_nano as i64
        }),
{
    let process = thread_process(msg.thread_id);
    let thread = bare_thread(msg.thread_id);
    let ctx = context_in(process, s.span_id);
    let m0 = ensure_program(m);
    lemma_ensure_program_lookup(m, ctx);
    let m1 = bump(m0, s.start_time_unix_nano);
    let parent = parent_context(process, s);
    let spans1 = with_child(m1.spans, parent, ctx);
    if let Some(p) = parent {
        lemma_span_of_context(m1.spans, p);
        lemma_update_keeps(
            m1.spans,
            p,
            SpanModel { children: span_of(m1.spans, p).children.push(ctx), ..span_of(m1.spans, p) },
        );
    }
    assert(span_contexts(spans1) == span_contexts(m1.spans));
    let fields = fields_of(s.attributes@);
    let actor = created_actor(spans1, parent, fields);
    let span = created_span(ctx, parent, fields, actor, s.name@, s.start_time_unix_nano as i64, thread);
    let r = apply_message(m, msg);
    assert(r == create_step(m0, process, thread, s));
    if has_span(spans1, ctx) {
        lemma_pos_of_present(spans1, ctx);
        let i = pos_of(spans1, ctx);
        lemma_update_same_context(spans1, i, span);
        assert(r.spans == spans1.update(i, span));
        lemma_pos_of_unique(r.spans, i, ctx);
    } else {
        lemma_push_span(spans1, span);
        let cs = span_contexts(spans1);
        assert forall|a: int, b: int|
            0 <= a < cs.push(ctx).len() && 0 <= b < cs.push(ctx).len() && a != b implies cs.push(
            ctx,
        )[a] != cs.push(ctx)[b] by {
            if a < cs.len() && b < cs.len() {
            } else if a < cs.len() {
                assert(cs[a] != ctx);
            } else {
                assert(cs[b] != ctx);
            }
        }
        assert(r.spans == spans1.push(span));
        assert(r.spans[spans1.len() as int] == span);
        lemma_pos_of_unique(r.spans, spans1.len() as int, ctx);
    }
}

} // verus!
