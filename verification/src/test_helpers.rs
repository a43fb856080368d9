//! The span tree of a recorded message stream, as tests compare it: each span under the span
//! that was current on its thread when it was created, with its attributes, links, events and
//! logs below it, and logs recorded outside any span at the end.
//!
//! [`telemetry_tree`] computes the entries of the tree, in order and with their depth, and
//! [`format_tree`] writes them as text, one line each, given the texts of their attributes.

use vstd::prelude::*;
use crate::id::{SpanContext, SpanId, ThreadId};
use crate::id::span_context_text;
use crate::pretty::{join_comma, push_chars, push_joined, push_spaces, push_str_chars, severity_name, severity_text, spaces};
use crate::protocol::{InstanceMessage, KeyValue, Severity, TelemetryMessage, TracingMessage};

verus! {

/// A recorded span: the span current at its creation, its id, name and attributes.
pub type SpanRecord = (Option<SpanId>, SpanId, Seq<char>, Seq<KeyValue>);

/// A recorded event: its span (`None`: no span), name and attributes.
pub type EventRecord = (Option<SpanId>, Seq<char>, Seq<KeyValue>);

/// A recorded log: the span current when it was logged, severity, body and attributes.
pub type LogRecord = (Option<SpanId>, Severity, Seq<char>, Seq<KeyValue>);

/// What the messages of a stream say, sorted by kind, each kind in arrival order, with the
/// stack of entered spans of each thread.
#[verifier::ext_equal]
pub struct Collected {
    /// The spans.
    pub spans: Seq<SpanRecord>,
    /// The attributes set on spans (`None`: on no span).
    pub attributes: Seq<(Option<SpanId>, KeyValue)>,
    /// The links added to spans (`None`: to no span).
    pub links: Seq<(Option<SpanId>, SpanContext)>,
    /// The events added to spans.
    pub events: Seq<EventRecord>,
    /// The logs.
    pub logs: Seq<LogRecord>,
    /// Each thread's stack of entered spans; a thread occurs at most once.
    pub stacks: Seq<(ThreadId, Seq<SpanId>)>,
}

/// Nothing recorded yet.
pub open spec fn no_records() -> Collected {
    Collected {
        spans: Seq::empty(),
        attributes: Seq::empty(),
        links: Seq::empty(),
        events: Seq::empty(),
        logs: Seq::empty(),
        stacks: Seq::empty(),
    }
}

/// The position of thread `t` among the stacks.
pub open spec fn thread_pos(stacks: Seq<(ThreadId, Seq<SpanId>)>, t: ThreadId) -> Option<nat>
    decreases stacks.len(),
{
    if stacks.len() == 0 {
        None
    } else {
        match thread_pos(stacks.drop_last(), t) {
            Some(i) => Some(i),
            None => if stacks.last().0 == t {
                Some((stacks.len() - 1) as nat)
            } else {
                None
            },
        }
    }
}

/// The stack of entered spans of thread `t`.
pub open spec fn stack_of(stacks: Seq<(ThreadId, Seq<SpanId>)>, t: ThreadId) -> Seq<SpanId> {
    match thread_pos(stacks, t) {
        Some(i) => stacks[i as int].1,
        None => Seq::empty(),
    }
}

/// The stacks with thread `t`'s stack replaced by `s`.
pub open spec fn set_stack(stacks: Seq<(ThreadId, Seq<SpanId>)>, t: ThreadId, s: Seq<SpanId>) -> Seq<(ThreadId, Seq<SpanId>)> {
    match thread_pos(stacks, t) {
        Some(i) => stacks.update(i as int, (t, s)),
        None => stacks.push((t, s)),
    }
}

/// The span current on thread `t`: the last one entered and not exited.
pub open spec fn current_span(stacks: Seq<(ThreadId, Seq<SpanId>)>, t: ThreadId) -> Option<SpanId> {
    let s = stack_of(stacks, t);
    if s.len() == 0 {
        None
    } else {
        Some(s.last())
    }
}

/// The span a message names by an optional id: that span, or else the current span of its
/// thread, if any.
pub open spec fn named_or_current(id: Option<SpanId>, stacks: Seq<(ThreadId, Seq<SpanId>)>, t: ThreadId) -> Option<SpanId> {
    match id {
        Some(id) => Some(id),
        None => current_span(stacks, t),
    }
}

/// One message recorded; `None` when a span is exited that is not the current one of its
/// thread.
pub open spec fn collect_step(c: Collected, m: InstanceMessage) -> Option<Collected> {
    let t = m.thread_id;
    match m.message {
        TelemetryMessage::Tracing(TracingMessage::CreateSpan(s)) => Some(
            Collected {
                spans: c.spans.push(
                    (current_span(c.stacks, t), s.span_id, s.name@, s.attributes@),
                ),
                ..c
            },
        ),
        TelemetryMessage::Tracing(TracingMessage::EnterSpan(e)) => Some(
            Collected { stacks: set_stack(c.stacks, t, stack_of(c.stacks, t).push(e.span_id)), ..c },
        ),
        TelemetryMessage::Tracing(TracingMessage::ExitSpan(e)) => {
            let s = stack_of(c.stacks, t);
            if s.len() > 0 && s.last() == e.span_id {
                Some(Collected { stacks: set_stack(c.stacks, t, s.drop_last()), ..c })
            } else {
                None
            }
        },
        TelemetryMessage::Tracing(TracingMessage::AddEvent(e)) => Some(
            Collected {
                events: c.events.push((named_or_current(e.span_id, c.stacks, t), e.name@, e.attributes@)),
                ..c
            },
        ),
        TelemetryMessage::Tracing(TracingMessage::AddLink(l)) => Some(
            Collected { links: c.links.push((named_or_current(l.span_id, c.stacks, t), l.link)), ..c },
        ),
        TelemetryMessage::Tracing(TracingMessage::SetAttribute(a)) => Some(
            Collected {
                attributes: c.attributes.push((named_or_current(a.span_id, c.stacks, t), a.attribute)),
                ..c
            },
        ),
        TelemetryMessage::Log(l) => Some(
            Collected {
                logs: c.logs.push(
                    (current_span(c.stacks, t), l.severity, l.body@, l.attributes@),
                ),
                ..c
            },
        ),
        _ => Some(c),
    }
}

/// All messages recorded in order; `None` if some exit does not match its thread's current
/// span.
pub open spec fn collect(msgs: Seq<InstanceMessage>) -> Option<Collected>
    decreases msgs.len(),
{
    if msgs.len() == 0 {
        Some(no_records())
    } else {
        match collect(msgs.drop_last()) {
            Some(c) => collect_step(c, msgs.last()),
            None => None,
        }
    }
}

/// What an entry of the tree shows.
#[derive(Debug)]
pub enum TreeItem {
    /// A span, with its name and creation attributes.
    Span { name: String, attributes: Vec<KeyValue> },
    /// An attribute set on the span above.
    Attribute(KeyValue),
    /// A link of the span above.
    Link(SpanContext),
    /// An event of the span above, with its name and attributes.
    Event { name: String, attributes: Vec<KeyValue> },
    /// A log, with its severity, body and attributes.
    Log { severity: Severity, body: String, attributes: Vec<KeyValue> },
}

/// An entry of the tree: what it shows and how deep it is indented.
#[derive(Debug)]
pub struct TreeEntry {
    /// The indentation level.
    pub depth: usize,
    /// What the entry shows.
    pub item: TreeItem,
}

/// The mathematical form of a [`TreeItem`].
pub enum ItemModel {
    Span(Seq<char>, Seq<KeyValue>),
    Attribute(KeyValue),
    Link(SpanContext),
    Event(Seq<char>, Seq<KeyValue>),
    Log(Severity, Seq<char>, Seq<KeyValue>),
}

/// The mathematical form of a [`TreeEntry`].
pub struct EntryModel {
    pub depth: nat,
    pub item: ItemModel,
}

impl View for TreeEntry {
    type V = EntryModel;

    open spec fn view(&self) -> EntryModel {
        EntryModel {
            depth: self.depth as nat,
            item: match self.item {
                TreeItem::Span { name, attributes } => ItemModel::Span(name@, attributes@),
                TreeItem::Attribute(kv) => ItemModel::Attribute(kv),
                TreeItem::Link(c) => ItemModel::Link(c),
                TreeItem::Event { name, attributes } => ItemModel::Event(name@, attributes@),
                TreeItem::Log { severity, body, attributes } => ItemModel::Log(
                    severity,
                    body@,
                    attributes@,
                ),
            },
        }
    }
}

/// The attribute entries of span `id`, at depth `d`.
pub open spec fn attribute_entries(attrs: Seq<(Option<SpanId>, KeyValue)>, id: SpanId, d: nat) -> Seq<EntryModel>
    decreases attrs.len(),
{
    if attrs.len() == 0 {
        Seq::empty()
    } else {
        attribute_entries(attrs.drop_last(), id, d) + if attrs.last().0 == Some(id) {
            seq![EntryModel { depth: d, item: ItemModel::Attribute(attrs.last().1) }]
        } else {
            Seq::empty()
        }
    }
}

/// The link entries of span `id`, at depth `d`.
pub open spec fn link_entries(links: Seq<(Option<SpanId>, SpanContext)>, id: SpanId, d: nat) -> Seq<EntryModel>
    decreases links.len(),
{
    if links.len() == 0 {
        Seq::empty()
    } else {
        link_entries(links.drop_last(), id, d) + if links.last().0 == Some(id) {
            seq![EntryModel { depth: d, item: ItemModel::Link(links.last().1) }]
        } else {
            Seq::empty()
        }
    }
}

/// The event entries of span `id`, at depth `d`.
pub open spec fn event_entries(events: Seq<EventRecord>, id: SpanId, d: nat) -> Seq<EntryModel>
    decreases events.len(),
{
    if events.len() == 0 {
        Seq::empty()
    } else {
        let e = events.last();
        event_entries(events.drop_last(), id, d) + if e.0 == Some(id) {
            seq![EntryModel { depth: d, item: ItemModel::Event(e.1, e.2) }]
        } else {
            Seq::empty()
        }
    }
}

/// The log entries of the logs recorded under `span` (`None`: under no span), at depth `d`.
pub open spec fn log_entries(logs: Seq<LogRecord>, span: Option<SpanId>, d: nat) -> Seq<EntryModel>
    decreases logs.len(),
{
    if logs.len() == 0 {
        Seq::empty()
    } else {
        let l = logs.last();
        log_entries(logs.drop_last(), span, d) + if l.0 == span {
            seq![EntryModel { depth: d, item: ItemModel::Log(l.1, l.2, l.3) }]
        } else {
            Seq::empty()
        }
    }
}

/// The entries of span `i` itself: its line, then its attributes, links, events and logs one
/// level deeper.
pub open spec fn span_block(c: Collected, i: int, depth: nat) -> Seq<EntryModel> {
    let s = c.spans[i];
    seq![EntryModel { depth, item: ItemModel::Span(s.2, s.3) }] + attribute_entries(
        c.attributes,
        s.1,
        depth + 1,
    ) + link_entries(c.links, s.1, depth + 1) + event_entries(c.events, s.1, depth + 1)
        + log_entries(c.logs, Some(s.1), depth + 1)
}

/// The entries of the spans from position `i` on that were created under `parent`, each
/// followed by its own subtree one level deeper.
pub open spec fn level_entries(c: Collected, parent: Option<SpanId>, depth: nat, i: nat) -> Seq<EntryModel>
    decreases c.spans.len() - depth, c.spans.len() - i,
{
    if depth >= c.spans.len() || i >= c.spans.len() {
        Seq::empty()
    } else if c.spans[i as int].0 == parent {
        span_block(c, i as int, depth) + level_entries(
            c,
            Some(c.spans[i as int].1),
            depth + 1,
            0,
        ) + level_entries(c, parent, depth, i + 1)
    } else {
        level_entries(c, parent, depth, i + 1)
    }
}

/// The spans nest finitely: no span from position `i` on created under `parent` sits at a
/// depth of the number of spans or more (which only a cycle of span ids could cause).
pub open spec fn nests_finitely(c: Collected, parent: Option<SpanId>, depth: nat, i: nat) -> bool
    decreases c.spans.len() - depth, c.spans.len() - i,
{
    if i >= c.spans.len() {
        true
    } else if depth >= c.spans.len() {
        c.spans[i as int].0 != parent && nests_finitely(c, parent, depth, i + 1)
    } else {
        (c.spans[i as int].0 == parent ==> nests_finitely(c, Some(c.spans[i as int].1), depth + 1, 0))
            && nests_finitely(c, parent, depth, i + 1)
    }
}

/// The whole tree: the spans under no span, then the logs recorded under no span.
pub open spec fn tree_entries(c: Collected) -> Seq<EntryModel> {
    level_entries(c, None, 0, 0) + log_entries(c.logs, None, 0)
}

/// Whether a message stream can be drawn as a tree: every exit matches its thread's current
/// span, and the spans nest finitely.
pub open spec fn drawable(msgs: Seq<InstanceMessage>) -> bool {
    match collect(msgs) {
        Some(c) => nests_finitely(c, None, 0, 0),
        None => false,
    }
}

/// The exec form of [`Collected`].
struct TreeData {
    spans: Vec<(Option<SpanId>, SpanId, String, Vec<KeyValue>)>,
    attributes: Vec<(Option<SpanId>, KeyValue)>,
    links: Vec<(Option<SpanId>, SpanContext)>,
    events: Vec<(Option<SpanId>, String, Vec<KeyValue>)>,
    logs: Vec<(Option<SpanId>, Severity, String, Vec<KeyValue>)>,
    stacks: Vec<(ThreadId, Vec<SpanId>)>,
}

impl View for TreeData {
    type V = Collected;

    closed spec fn view(&self) -> Collected {
        Collected {
            spans: self.spans@.map_values(
                |s: (Option<SpanId>, SpanId, String, Vec<KeyValue>)| (s.0, s.1, s.2@, s.3@),
            ),
            attributes: self.attributes@,
            links: self.links@,
            events: self.events@.map_values(
                |e: (Option<SpanId>, String, Vec<KeyValue>)| (e.0, e.1@, e.2@),
            ),
            logs: self.logs@.map_values(
                |l: (Option<SpanId>, Severity, String, Vec<KeyValue>)| (l.0, l.1, l.2@, l.3@),
            ),
            stacks: self.stacks@.map_values(|s: (ThreadId, Vec<SpanId>)| (s.0, s.1@)),
        }
    }
}

/// Whether a record's span is span `id`.
fn is_span(span: Option<SpanId>, id: SpanId) -> (r: bool)
    ensures
        r == (span == Some(id)),
{
    match span {
        Some(s) => s.0 == id.0,
        None => false,
    }
}

/// A copy of a list of attributes.
fn copy_attributes(v: &Vec<KeyValue>) -> (r: Vec<KeyValue>)
    ensures
        r@ == v@,
{
    let mut r: Vec<KeyValue> = Vec::new();
    for i in 0..v.len()
        invariant
            r@ == v@.take(i as int),
    {
        r.push(v[i].clone());
        assert(r@ =~= v@.take(i + 1));
    }
    assert(v@.take(v.len() as int) =~= v@);
    r
}

/// A copy of a stack of span ids.
fn copy_stack(v: &Vec<SpanId>) -> (r: Vec<SpanId>)
    ensures
        r@ == v@,
{
    let mut r: Vec<SpanId> = Vec::new();
    for i in 0..v.len()
        invariant
            r@ == v@.take(i as int),
    {
        r.push(v[i]);
        assert(r@ =~= v@.take(i + 1));
    }
    assert(v@.take(v.len() as int) =~= v@);
    r
}

/// A thread found in a prefix of the stacks is found at the same place in all of them.
proof fn lemma_thread_pos_prefix(stacks: Seq<(ThreadId, Seq<SpanId>)>, t: ThreadId, k: int)
    requires
        0 <= k <= stacks.len(),
        thread_pos(stacks.take(k), t) is Some,
    ensures
        thread_pos(stacks, t) == thread_pos(stacks.take(k), t),
    decreases stacks.len() - k,
{
    if k < stacks.len() {
        assert(stacks.take(k + 1).drop_last() =~= stacks.take(k));
        lemma_thread_pos_prefix(stacks, t, k + 1);
    } else {
        assert(stacks.take(k) =~= stacks);
    }
}

impl TreeData {
    /// The position of thread `t`'s stack, if it has one.
    fn find_thread(&self, t: ThreadId) -> (r: Option<usize>)
        ensures
            match r {
                Some(i) => thread_pos(self@.stacks, t) == Some(i as nat) && i < self.stacks.len(),
                None => thread_pos(self@.stacks, t) is None,
            },
    {
        let ghost st = self@.stacks;
        assert(st.take(0) =~= Seq::<(ThreadId, Seq<SpanId>)>::empty());
        let mut i: usize = 0;
        while i < self.stacks.len()
            invariant
                i <= self.stacks.len(),
                st == self@.stacks,
                st.len() == self.stacks.len(),
                thread_pos(st.take(i as int), t) is None,
            decreases self.stacks.len() - i,
        {
            assert(st[i as int].0 == self.stacks@[i as int].0);
            assert(st.take(i + 1).drop_last() =~= st.take(i as int));
            if self.stacks[i].0 == t {
                proof {
                    lemma_thread_pos_prefix(st, t, i + 1);
                }
                return Some(i);
            }
            i = i + 1;
        }
        assert(st.take(i as int) =~= st);
        None
    }

    /// The span current on thread `t`.
    fn current_span_for(&self, t: ThreadId) -> (r: Option<SpanId>)
        ensures
            r == current_span(self@.stacks, t),
    {
        match self.find_thread(t) {
            Some(i) => {
                let stack = &self.stacks[i].1;
                assert(self@.stacks[i as int].1 == stack@);
                if stack.len() == 0 {
                    None
                } else {
                    Some(stack[stack.len() - 1])
                }
            },
            None => None,
        }
    }

    /// Replaces thread `t`'s stack.
    fn set_stack_for(&mut self, t: ThreadId, s: Vec<SpanId>)
        ensures
            final(self)@ == (Collected { stacks: set_stack(old(self)@.stacks, t, s@), ..old(self)@ }),
    {
        match self.find_thread(t) {
            Some(i) => {
                let ghost sv = s@;
                self.stacks.set(i, (t, s));
                assert(self@.stacks =~= old(self)@.stacks.update(i as int, (t, sv)));
            },
            None => {
                self.stacks.push((t, s));
                assert(self@.stacks =~= set_stack(old(self)@.stacks, t, s@));
            },
        }
        assert(self@.spans =~= old(self)@.spans);
        assert(self@.events =~= old(self)@.events);
        assert(self@.logs =~= old(self)@.logs);
    }

    /// The stack of thread `t`, copied.
    fn stack_for(&self, t: ThreadId) -> (r: Vec<SpanId>)
        ensures
            r@ == stack_of(self@.stacks, t),
    {
        match self.find_thread(t) {
            Some(i) => {
                assert(self@.stacks[i as int].1 == self.stacks@[i as int].1@);
                copy_stack(&self.stacks[i].1)
            },
            None => Vec::new(),
        }
    }

    /// Records one message; `false`, with nothing recorded, if it exits a span that is not
    /// the current one of its thread.
    fn record(&mut self, m: &InstanceMessage) -> (ok: bool)
        ensures
            ok == collect_step(old(self)@, *m).is_some(),
            ok ==> collect_step(old(self)@, *m) == Some(final(self)@),
    {
        let t = m.thread_id;
        match &m.message {
            TelemetryMessage::Tracing(TracingMessage::CreateSpan(s)) => {
                let parent = self.current_span_for(t);
                let ghost before = self@;
                self.spans.push((parent, s.span_id, s.name.clone(), copy_attributes(&s.attributes)));
                assert(self@ =~= collect_step(before, *m)->Some_0);
                true
            },
            TelemetryMessage::Tracing(TracingMessage::EnterSpan(e)) => {
                let mut stack = self.stack_for(t);
                stack.push(e.span_id);
                self.set_stack_for(t, stack);
                true
            },
            TelemetryMessage::Tracing(TracingMessage::ExitSpan(e)) => {
                let mut stack = self.stack_for(t);
                if stack.len() == 0 {
                    return false;
                }
                let top = stack.pop().unwrap();
                if top != e.span_id {
                    return false;
                }
                self.set_stack_for(t, stack);
                true
            },
            TelemetryMessage::Tracing(TracingMessage::AddEvent(e)) => {
                let span = match e.span_id {
                    Some(id) => Some(id),
                    None => self.current_span_for(t),
                };
                let ghost before = self@;
                self.events.push((span, e.name.clone(), copy_attributes(&e.attributes)));
                assert(self@ =~= collect_step(before, *m)->Some_0);
                true
            },
            TelemetryMessage::Tracing(TracingMessage::AddLink(l)) => {
                let span = match l.span_id {
                    Some(id) => Some(id),
                    None => self.current_span_for(t),
                };
                let ghost before = self@;
                self.links.push((span, l.link));
                assert(self@ =~= collect_step(before, *m)->Some_0);
                true
            },
            TelemetryMessage::Tracing(TracingMessage::SetAttribute(a)) => {
                let span = match a.span_id {
                    Some(id) => Some(id),
                    None => self.current_span_for(t),
                };
                let ghost before = self@;
                self.attributes.push((span, a.attribute.clone()));
                assert(self@ =~= collect_step(before, *m)->Some_0);
                true
            },
            TelemetryMessage::Log(l) => {
                let parent = self.current_span_for(t);
                let ghost before = self@;
                self.logs.push((parent, l.severity, l.body.clone(), copy_attributes(&l.attributes)));
                assert(self@ =~= collect_step(before, *m)->Some_0);
                true
            },
            _ => true,
        }
    }
}

/// Records a whole stream; `None` if some exit does not match its thread's current span.
fn collect_all(messages: &Vec<InstanceMessage>) -> (r: Option<TreeData>)
    ensures
        match r {
            Some(d) => collect(messages@) == Some(d@),
            None => collect(messages@) is None,
        },
{
    let mut data = TreeData {
        spans: Vec::new(),
        attributes: Vec::new(),
        links: Vec::new(),
        events: Vec::new(),
        logs: Vec::new(),
        stacks: Vec::new(),
    };
    assert(data@ =~= no_records());
    for i in 0..messages.len()
        invariant
            collect(messages@.take(i as int)) == Some(data@),
    {
        proof {
            let t = messages@.take(i + 1);
            assert(t.drop_last() =~= messages@.take(i as int));
        }
        if !data.record(&messages[i]) {
            proof {
                lemma_collect_fails_after(messages@, i + 1);
            }
            return None;
        }
    }
    assert(messages@.take(messages.len() as int) =~= messages@);
    Some(data)
}

/// Once recording fails, it stays failed.
proof fn lemma_collect_fails_after(msgs: Seq<InstanceMessage>, k: int)
    requires
        0 <= k <= msgs.len(),
        collect(msgs.take(k)) is None,
    ensures
        collect(msgs) is None,
    decreases msgs.len() - k,
{
    if k < msgs.len() {
        assert(msgs.take(k + 1).drop_last() =~= msgs.take(k));
        lemma_collect_fails_after(msgs, k + 1);
    } else {
        assert(msgs.take(k) =~= msgs);
    }
}


/// The models of a list of entries.
pub open spec fn entries_view(v: Seq<TreeEntry>) -> Seq<EntryModel> {
    v.map_values(|e: TreeEntry| e@)
}

/// Appending an entry appends its model.
proof fn lemma_entries_push(v: Seq<TreeEntry>, e: TreeEntry)
    ensures
        entries_view(v.push(e)) == entries_view(v) + seq![e@],
{
    assert(entries_view(v.push(e)) =~= entries_view(v) + seq![e@]);
}

/// Whether two optional span ids are the same.
fn same_span(a: Option<SpanId>, b: Option<SpanId>) -> (r: bool)
    ensures
        r == (a == b),
{
    match (a, b) {
        (None, None) => true,
        (Some(x), Some(y)) => x.0 == y.0,
        _ => false,
    }
}

impl TreeData {
    /// Appends the attribute entries of span `id` at depth `d`.
    fn push_attributes(&self, id: SpanId, d: usize, out: &mut Vec<TreeEntry>)
        ensures
            entries_view(final(out)@) == entries_view(old(out)@) + attribute_entries(self@.attributes, id, d as nat),
    {
        let ghost start = entries_view(out@);
        let n = self.attributes.len();
        assert(self@.attributes.take(0) =~= Seq::<(Option<SpanId>, KeyValue)>::empty());
        for j in 0..n
            invariant
                n == self.attributes.len(),
                entries_view(out@) == start + attribute_entries(self@.attributes.take(j as int), id, d as nat),
        {
            let ghost before = out@;
            proof {
                let t = self@.attributes.take(j + 1);
                assert(t.drop_last() =~= self@.attributes.take(j as int));
            }
            if is_span(self.attributes[j].0, id) {
                let e = TreeEntry { depth: d, item: TreeItem::Attribute(self.attributes[j].1.clone()) };
                out.push(e);
                proof {
                    lemma_entries_push(before, e);
                }
            }
            assert(entries_view(out@) =~= start + attribute_entries(self@.attributes.take(j + 1), id, d as nat));
        }
        assert(self@.attributes.take(n as int) =~= self@.attributes);
    }

    /// Appends the link entries of span `id` at depth `d`.
    fn push_links(&self, id: SpanId, d: usize, out: &mut Vec<TreeEntry>)
        ensures
            entries_view(final(out)@) == entries_view(old(out)@) + link_entries(self@.links, id, d as nat),
    {
        let ghost start = entries_view(out@);
        let n = self.links.len();
        assert(self@.links.take(0) =~= Seq::<(Option<SpanId>, SpanContext)>::empty());
        for j in 0..n
            invariant
                n == self.links.len(),
                entries_view(out@) == start + link_entries(self@.links.take(j as int), id, d as nat),
        {
            let ghost before = out@;
            proof {
                let t = self@.links.take(j + 1);
                assert(t.drop_last() =~= self@.links.take(j as int));
            }
            if is_span(self.links[j].0, id) {
                let e = TreeEntry { depth: d, item: TreeItem::Link(self.links[j].1) };
                out.push(e);
                proof {
                    lemma_entries_push(before, e);
                }
            }
            assert(entries_view(out@) =~= start + link_entries(self@.links.take(j + 1), id, d as nat));
        }
        assert(self@.links.take(n as int) =~= self@.links);
    }

    /// Appends the event entries of span `id` at depth `d`.
    fn push_events(&self, id: SpanId, d: usize, out: &mut Vec<TreeEntry>)
        ensures
            entries_view(final(out)@) == entries_view(old(out)@) + event_entries(self@.events, id, d as nat),
    {
        let ghost start = entries_view(out@);
        let n = self.events.len();
        assert(self@.events.take(0) =~= Seq::<EventRecord>::empty());
        for j in 0..n
            invariant
                n == self.events.len(),
                entries_view(out@) == start + event_entries(self@.events.take(j as int), id, d as nat),
        {
            let ghost before = out@;
            proof {
                let t = self@.events.take(j + 1);
                assert(t.drop_last() =~= self@.events.take(j as int));
            }
            let ev = &self.events[j];
            assert(self@.events[j as int] == (ev.0, ev.1@, ev.2@));
            if is_span(ev.0, id) {
                let e = TreeEntry {
                    depth: d,
                    item: TreeItem::Event { name: ev.1.clone(), attributes: copy_attributes(&ev.2) },
                };
                out.push(e);
                proof {
                    lemma_entries_push(before, e);
                }
            }
            assert(entries_view(out@) =~= start + event_entries(self@.events.take(j + 1), id, d as nat));
        }
        assert(self@.events.take(n as int) =~= self@.events);
    }

    /// Appends the entries of the logs recorded under `span`, at depth `d`.
    fn push_logs(&self, span: Option<SpanId>, d: usize, out: &mut Vec<TreeEntry>)
        ensures
            entries_view(final(out)@) == entries_view(old(out)@) + log_entries(self@.logs, span, d as nat),
    {
        let ghost start = entries_view(out@);
        let n = self.logs.len();
        assert(self@.logs.take(0) =~= Seq::<LogRecord>::empty());
        for j in 0..n
            invariant
                n == self.logs.len(),
                entries_view(out@) == start + log_entries(self@.logs.take(j as int), span, d as nat),
        {
            let ghost before = out@;
            proof {
                let t = self@.logs.take(j + 1);
                assert(t.drop_last() =~= self@.logs.take(j as int));
            }
            let l = &self.logs[j];
            assert(self@.logs[j as int] == (l.0, l.1, l.2@, l.3@));
            if same_span(l.0, span) {
                let e = TreeEntry {
                    depth: d,
                    item: TreeItem::Log { severity: l.1, body: l.2.clone(), attributes: copy_attributes(&l.3) },
                };
                out.push(e);
                proof {
                    lemma_entries_push(before, e);
                }
            }
            assert(entries_view(out@) =~= start + log_entries(self@.logs.take(j + 1), span, d as nat));
        }
        assert(self@.logs.take(n as int) =~= self@.logs);
    }

    /// Appends the entries of the spans created under `parent`, each with its subtree.
    fn push_level(&self, parent: Option<SpanId>, depth: usize, out: &mut Vec<TreeEntry>)
        requires
            nests_finitely(self@, parent, depth as nat, 0),
        ensures
            entries_view(final(out)@) == entries_view(old(out)@) + level_entries(self@, parent, depth as nat, 0),
        decreases self.spans.len() - depth,
    {
        let ghost c = self@;
        let ghost start = entries_view(out@);
        let n = self.spans.len();
        assert(c.spans.len() == n);
        for i in 0..n
            invariant
                n == self.spans.len(),
                c == self@,
                c.spans.len() == n,
                nests_finitely(c, parent, depth as nat, i as nat),
                entries_view(out@) + level_entries(c, parent, depth as nat, i as nat) == start
                    + level_entries(c, parent, depth as nat, 0),
        {
            let sp = &self.spans[i];
            assert(c.spans[i as int] == (sp.0, sp.1, sp.2@, sp.3@));
            if same_span(sp.0, parent) {
                assert(depth < n);
                let ghost before = out@;
                let e = TreeEntry {
                    depth,
                    item: TreeItem::Span { name: sp.2.clone(), attributes: copy_attributes(&sp.3) },
                };
                out.push(e);
                proof {
                    lemma_entries_push(before, e);
                }
                self.push_attributes(sp.1, depth + 1, out);
                self.push_links(sp.1, depth + 1, out);
                self.push_events(sp.1, depth + 1, out);
                self.push_logs(Some(sp.1), depth + 1, out);
                assert(entries_view(out@) =~= entries_view(before) + span_block(c, i as int, depth as nat));
                self.push_level(Some(sp.1), depth + 1, out);
                assert(level_entries(c, parent, depth as nat, i as nat) =~= span_block(c, i as int, depth as nat)
                    + level_entries(c, Some(sp.1), depth as nat + 1, 0) + level_entries(c, parent, depth as nat, i as nat + 1));
            }
            assert(entries_view(out@) + level_entries(c, parent, depth as nat, i as nat + 1) =~= start
                + level_entries(c, parent, depth as nat, 0));
        }
        assert(level_entries(c, parent, depth as nat, n as nat) =~= Seq::<EntryModel>::empty());
        assert(entries_view(out@) =~= start + level_entries(c, parent, depth as nat, 0));
    }

    /// Whether the spans created under `parent` from position `i` on nest finitely.
    fn check_nesting(&self, parent: Option<SpanId>, depth: usize, i: usize) -> (r: bool)
        requires
            i <= self.spans.len(),
        ensures
            r == nests_finitely(self@, parent, depth as nat, i as nat),
        decreases self.spans.len() - depth, self.spans.len() - i,
    {
        let n = self.spans.len();
        if i >= n {
            return true;
        }
        let sp = &self.spans[i];
        assert(self@.spans[i as int] == (sp.0, sp.1, sp.2@, sp.3@));
        let here = same_span(sp.0, parent);
        if depth >= n {
            !here && self.check_nesting(parent, depth, i + 1)
        } else {
            let below = if here {
                self.check_nesting(Some(sp.1), depth + 1, 0)
            } else {
                true
            };
            below && self.check_nesting(parent, depth, i + 1)
        }
    }
}

/// The entries of the span tree of a message stream: each span under the span current on its
/// thread at its creation, followed one level deeper by its attributes, links, events and logs
/// and then by the spans created under it; at the end, the logs recorded under no span.
///
/// The stream must be [`drawable`]: an exit that is not of its thread's current span, or span
/// ids that nest in a cycle, have no tree.
pub fn telemetry_tree(messages: Vec<InstanceMessage>) -> (r: Vec<TreeEntry>)
    requires
        drawable(messages@),
    ensures
        entries_view(r@) == tree_entries(collect(messages@)->Some_0),
{
    let data = collect_all(&messages).unwrap();
    let mut out: Vec<TreeEntry> = Vec::new();
    assert(entries_view(out@) =~= Seq::<EntryModel>::empty());
    data.push_level(None, 0, &mut out);
    data.push_logs(None, 0, &mut out);
    assert(entries_view(out@) =~= tree_entries(data@));
    out
}

/// Whether a message stream has a span tree (see [`drawable`]).
pub fn is_drawable(messages: &Vec<InstanceMessage>) -> (r: bool)
    ensures
        r == drawable(messages@),
{
    match collect_all(messages) {
        Some(data) => data.check_nesting(None, 0, 0),
        None => false,
    }
}

/// The text of an entry, without indentation, given the texts of its attributes (for an
/// attribute entry, the text of that attribute).
pub open spec fn item_text(item: ItemModel, texts: Seq<Seq<char>>) -> Seq<char> {
    match item {
        ItemModel::Span(name, _) => name + " ["@ + join_comma(texts) + "]"@,
        ItemModel::Attribute(_) => "+ attr: "@ + join_comma(texts),
        ItemModel::Link(c) => "+ link: span="@ + span_context_text(c),
        ItemModel::Event(name, _) => "+ event: "@ + name + " ["@ + join_comma(texts) + "]"@,
        ItemModel::Log(severity, body, _) => "+ log: ["@ + severity_name(severity) + "] "@ + body + " ["@
            + join_comma(texts) + "]"@,
    }
}

/// The line of an entry: four spaces per level of depth, its text, and a newline.
pub open spec fn entry_line(e: EntryModel, texts: Seq<Seq<char>>) -> Seq<char> {
    spaces(4 * e.depth) + item_text(e.item, texts) + "\n"@
}

/// The lines of the entries, each with the texts of its attributes.
pub open spec fn tree_text(entries: Seq<EntryModel>, texts: Seq<Seq<Seq<char>>>) -> Seq<char>
    decreases entries.len(),
{
    if entries.len() == 0 || texts.len() != entries.len() {
        Seq::empty()
    } else {
        tree_text(entries.drop_last(), texts.drop_last()) + entry_line(entries.last(), texts.last())
    }
}

/// The texts of the attributes of each entry, as character sequences.
pub open spec fn texts_view(texts: Seq<Vec<String>>) -> Seq<Seq<Seq<char>>> {
    texts.map_values(|v: Vec<String>| v@.map_values(|t: String| t@))
}

/// Appends the text of an entry, without indentation.
fn push_item(out: &mut String, item: &TreeItem, texts: &Vec<String>)
    ensures
        final(out)@ == old(out)@ + item_text(
            (TreeEntry { depth: 0, item: *item })@.item,
            texts@.map_values(|t: String| t@),
        ),
{
    match item {
        TreeItem::Span { name, attributes: _ } => {
            push_str_chars(out, name.as_str());
            push_str_chars(out, " [");
            push_joined(out, texts);
            push_str_chars(out, "]");
        },
        TreeItem::Attribute(_) => {
            push_str_chars(out, "+ attr: ");
            push_joined(out, texts);
        },
        TreeItem::Link(c) => {
            push_str_chars(out, "+ link: span=");
            let text = c.to_string();
            push_str_chars(out, text.as_str());
        },
        TreeItem::Event { name, attributes: _ } => {
            push_str_chars(out, "+ event: ");
            push_str_chars(out, name.as_str());
            push_str_chars(out, " [");
            push_joined(out, texts);
            push_str_chars(out, "]");
        },
        TreeItem::Log { severity, body, attributes: _ } => {
            push_str_chars(out, "+ log: [");
            push_chars(out, &severity_text(*severity));
            push_str_chars(out, "] ");
            push_str_chars(out, body.as_str());
            push_str_chars(out, " [");
            push_joined(out, texts);
            push_str_chars(out, "]");
        },
    }
}

/// Writes the entries as text, one line each: indented four spaces per level, with the texts
/// of each entry's attributes (each `key: value`) joined by `, `.
pub fn format_tree(entries: &Vec<TreeEntry>, attribute_texts: &Vec<Vec<String>>) -> (r: String)
    requires
        entries.len() == attribute_texts.len(),
    ensures
        r@ == tree_text(entries_view(entries@), texts_view(attribute_texts@)),
{
    let mut out = String::new();
    let ghost es = entries_view(entries@);
    let ghost ts = texts_view(attribute_texts@);
    assert(es.take(0) =~= Seq::<EntryModel>::empty());
    for i in 0..entries.len()
        invariant
            entries.len() == attribute_texts.len(),
            es == entries_view(entries@),
            ts == texts_view(attribute_texts@),
            out@ == tree_text(es.take(i as int), ts.take(i as int)),
    {
        let ghost before = out@;
        let depth = entries[i].depth;
        for d in 0..depth
            invariant
                out@ == before + spaces(4 * d as nat),
        {
            push_spaces(&mut out, 4);
            assert(spaces(4 * (d + 1) as nat) =~= spaces(4 * d as nat) + spaces(4));
        }
        push_item(&mut out, &entries[i].item, &attribute_texts[i]);
        push_str_chars(&mut out, "\n");
        proof {
            let e = es.take(i + 1);
            let t = ts.take(i + 1);
            assert(e.drop_last() =~= es.take(i as int));
            assert(t.drop_last() =~= ts.take(i as int));
            assert(e.last() == entries[i as int]@);
            assert(t.last() == attribute_texts[i as int]@.map_values(|x: String| x@));
            assert((TreeEntry { depth: 0, item: entries[i as int].item })@.item == entries[i as int]@.item);
            assert(out@ =~= tree_text(e, t));
        }
    }
    assert(es.take(entries.len() as int) =~= es);
    assert(ts.take(entries.len() as int) =~= ts);
    out
}

} // verus!
