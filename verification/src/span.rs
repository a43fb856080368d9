//! Spans as a thread sees them: which span is current, what entering and leaving a span does
//! to that, and the messages a span's life produces.
//!
//! The current span of a thread and the clock live with the caller; each operation takes what
//! it needs and returns the message to export, if any.

use vstd::prelude::*;
use crate::id::{ProcessId, SpanContext, SpanId, SpanIdCounter};
use crate::protocol::{
    KeyValue, LogMessage, Severity, SpanAddEventMessage, SpanAddLinkMessage, SpanCloseMessage, SpanCreateMessage,
    SpanEnterMessage, SpanExitMessage, SpanSetAttributeMessage,
};

verus! {

/// A span: a unit of work that can be entered and exited. A no-op span records nothing.
#[derive(Debug, Default)]
pub struct Span {
    span_id: Option<SpanId>,
}

impl View for Span {
    type V = Option<SpanId>;

    /// The span's id; `None` for a no-op span.
    closed spec fn view(&self) -> Option<SpanId> {
        self.span_id
    }
}

/// The span-tracking state of one thread: the span it is currently in.
#[derive(Debug, Default, Clone, Copy)]
pub struct ThreadSpans {
    /// The current span, if any.
    pub current: Option<SpanId>,
}

/// What restores the previous current span when a span entered by reference is exited.
#[derive(Debug)]
pub struct SpanGuardRef {
    span_id: Option<SpanId>,
    parent: Option<SpanId>,
}

impl View for SpanGuardRef {
    type V = (Option<SpanId>, Option<SpanId>);

    /// The entered span (`None` for a no-op guard) and the span that was current before.
    closed spec fn view(&self) -> (Option<SpanId>, Option<SpanId>) {
        (self.span_id, self.parent)
    }
}

/// A guard that owns the span it entered: on exit it restores the previous current span and
/// closes the span.
#[derive(Debug)]
pub struct SpanGuard {
    span: Span,
    parent: Option<SpanId>,
}

impl View for SpanGuard {
    type V = (Option<SpanId>, Option<SpanId>);

    /// The entered span (`None` for a no-op guard) and the span that was current before.
    closed spec fn view(&self) -> (Option<SpanId>, Option<SpanId>) {
        (self.span.span_id, self.parent)
    }
}

/// The state after entering span `id`, and the guard that remembers the span current before.
pub open spec fn entered(s: ThreadSpans, id: SpanId) -> (ThreadSpans, (Option<SpanId>, Option<SpanId>)) {
    (ThreadSpans { current: Some(id) }, (Some(id), s.current))
}

/// The state after exiting with guard `g`: the remembered span is current again; a no-op
/// guard changes nothing.
pub open spec fn exited(s: ThreadSpans, g: (Option<SpanId>, Option<SpanId>)) -> ThreadSpans {
    match g.0 {
        Some(_) => ThreadSpans { current: g.1 },
        None => s,
    }
}

impl Span {
    /// A span's id is never zero: ids come from a [`SpanIdCounter`].
    #[verifier::type_invariant]
    closed spec fn inv(&self) -> bool {
        self.span_id matches Some(id) ==> id.0 != 0
    }

    /// A span that records nothing.
    pub fn noop() -> (r: Self)
        ensures
            r@ is None,
    {
        Span { span_id: None }
    }

    /// A new span, created inside the thread's current span, with the next id of the
    /// process's counter: the span and its creation message.
    pub fn new(
        spans: &ThreadSpans,
        ids: &mut SpanIdCounter,
        name: String,
        attributes: Vec<KeyValue>,
        time_unix_nano: u64,
    ) -> (r: (Span, SpanCreateMessage))
        requires
            old(ids)@ < u64::MAX,
        ensures
            r.0@ == Some(SpanId(old(ids)@)),
            old(ids)@ != 0,
            final(ids)@ == old(ids)@ + 1,
            r.1.span_id == SpanId(old(ids)@),
            r.1.parent_span_id == spans.current,
            r.1.name == name,
            r.1.attributes == attributes,
            r.1.start_time_unix_nano == time_unix_nano,
    {
        let span_id = SpanId::next_id(ids);
        (
            Span { span_id: Some(span_id) },
            SpanCreateMessage {
                span_id,
                parent_span_id: spans.current,
                name,
                start_time_unix_nano: time_unix_nano,
                attributes,
            },
        )
    }

    /// The span's context in process `process`; `None` for a no-op span.
    pub fn context(&self, process: ProcessId) -> (r: Option<SpanContext>)
        ensures
            r == match self@ {
                Some(id) => Some(SpanContext { process_id: process, span_id: id }),
                None => None,
            },
            r matches Some(c) ==> c.span_id.0 != 0,
    {
        proof {
            use_type_invariant(self);
        }
        match self.span_id {
            Some(span_id) => Some(SpanContext::new(process, span_id)),
            None => None,
        }
    }

    /// Enters the span: it becomes the thread's current span. Returns the guard that undoes
    /// this on exit, and the message to export (none for a no-op span, which changes nothing).
    pub fn enter(&self, spans: &mut ThreadSpans, time_unix_nano: u64) -> (r: (SpanGuardRef, Option<SpanEnterMessage>))
        ensures
            match self@ {
                Some(id) => {
                    &&& *final(spans) == entered(*old(spans), id).0
                    &&& r.0@ == entered(*old(spans), id).1
                    &&& r.1 == Some(SpanEnterMessage { span_id: id, time_unix_nano })
                },
                None => {
                    &&& *final(spans) == *old(spans)
                    &&& r.0@.0 is None
                    &&& r.1 is None
                },
            },
    {
        match self.span_id {
            Some(span_id) => {
                let parent = spans.current;
                spans.current = Some(span_id);
                (
                    SpanGuardRef { span_id: Some(span_id), parent },
                    Some(SpanEnterMessage { span_id, time_unix_nano }),
                )
            },
            None => (SpanGuardRef { span_id: None, parent: None }, None),
        }
    }

    /// Enters the span and hands it to the returned guard, which exits and closes it. As
    /// [`Span::enter`] for the thread's current span and the message.
    pub fn entered(self, spans: &mut ThreadSpans, time_unix_nano: u64) -> (r: (SpanGuard, Option<SpanEnterMessage>))
        ensures
            match self@ {
                Some(id) => {
                    &&& *final(spans) == entered(*old(spans), id).0
                    &&& r.0@ == entered(*old(spans), id).1
                    &&& r.1 == Some(SpanEnterMessage { span_id: id, time_unix_nano })
                },
                None => {
                    &&& *final(spans) == *old(spans)
                    &&& r.0@.0 is None
                    &&& r.1 is None
                },
            },
    {
        match self.span_id {
            Some(span_id) => {
                let parent = spans.current;
                spans.current = Some(span_id);
                (SpanGuard { span: self, parent }, Some(SpanEnterMessage { span_id, time_unix_nano }))
            },
            None => (SpanGuard { span: Span::noop(), parent: None }, None),
        }
    }

    /// Links the span to another; `None` for a no-op span.
    pub fn add_link(&self, link: SpanContext) -> (r: Option<SpanAddLinkMessage>)
        ensures
            r == match self@ {
                Some(id) => Some(SpanAddLinkMessage { span_id: Some(id), link }),
                None => None,
            },
    {
        match self.span_id {
            Some(span_id) => Some(SpanAddLinkMessage { span_id: Some(span_id), link }),
            None => None,
        }
    }

    /// An event on the span; `None` for a no-op span.
    pub fn add_event(&self, name: String, attributes: Vec<KeyValue>, time_unix_nano: u64) -> (r: Option<SpanAddEventMessage>)
        ensures
            match self@ {
                Some(id) => r matches Some(m) && m.span_id == Some(id) && m.name == name && m.attributes
                    == attributes && m.time_unix_nano == time_unix_nano,
                None => r is None,
            },
    {
        match self.span_id {
            Some(span_id) => Some(SpanAddEventMessage { span_id: Some(span_id), name, time_unix_nano, attributes }),
            None => None,
        }
    }

    /// An attribute on the span; `None` for a no-op span.
    pub fn set_attribute(&self, attribute: KeyValue) -> (r: Option<SpanSetAttributeMessage>)
        ensures
            match self@ {
                Some(id) => r matches Some(m) && m.span_id == Some(id) && m.attribute == attribute,
                None => r is None,
            },
    {
        match self.span_id {
            Some(span_id) => Some(SpanSetAttributeMessage { span_id: Some(span_id), attribute }),
            None => None,
        }
    }

    /// Closes the span when it is dropped; `None` for a no-op span. The span becomes a no-op,
    /// so it is closed once.
    pub fn close(&mut self, time_unix_nano: u64) -> (r: Option<SpanCloseMessage>)
        ensures
            final(self)@ is None,
            r == match old(self)@ {
                Some(id) => Some(SpanCloseMessage { span_id: id, end_time_unix_nano: time_unix_nano }),
                None => None,
            },
    {
        let taken = self.span_id;
        self.span_id = None;
        match taken {
            Some(span_id) => Some(SpanCloseMessage { span_id, end_time_unix_nano: time_unix_nano }),
            None => None,
        }
    }
}

impl SpanGuardRef {
    /// Exits the entered span: the span that was current before becomes current again.
    /// Returns the message to export (none for a no-op guard, which changes nothing).
    pub fn exit(self, spans: &mut ThreadSpans, time_unix_nano: u64) -> (r: Option<SpanExitMessage>)
        ensures
            *final(spans) == exited(*old(spans), self@),
            r == match self@.0 {
                Some(id) => Some(SpanExitMessage { span_id: id, time_unix_nano }),
                None => None,
            },
    {
        match self.span_id {
            Some(span_id) => {
                spans.current = self.parent;
                Some(SpanExitMessage { span_id, time_unix_nano })
            },
            None => None,
        }
    }
}

impl SpanGuard {
    /// Exits the entered span, as [`SpanGuardRef::exit`], and then closes it. Returns the exit
    /// and close messages, both at `time_unix_nano` (none for a no-op guard, which changes
    /// nothing).
    pub fn exit(self, spans: &mut ThreadSpans, time_unix_nano: u64) -> (r: (Option<SpanExitMessage>, Option<SpanCloseMessage>))
        ensures
            *final(spans) == exited(*old(spans), self@),
            r.0 == match self@.0 {
                Some(id) => Some(SpanExitMessage { span_id: id, time_unix_nano }),
                None => None,
            },
            r.1 == match self@.0 {
                Some(id) => Some(SpanCloseMessage { span_id: id, end_time_unix_nano: time_unix_nano }),
                None => None,
            },
    {
        let mut span = self.span;
        match span.span_id {
            Some(span_id) => {
                spans.current = self.parent;
                let close = span.close(time_unix_nano);
                (Some(SpanExitMessage { span_id, time_unix_nano }), close)
            },
            None => (None, None),
        }
    }
}

/// Operations on whatever span is current on the thread.
#[derive(Debug, Default)]
pub struct CurrentSpan;

impl CurrentSpan {
    /// An event on the current span; `None` outside any span.
    pub fn add_event(spans: &ThreadSpans, name: String, attributes: Vec<KeyValue>, time_unix_nano: u64) -> (r: Option<SpanAddEventMessage>)
        ensures
            match spans.current {
                Some(id) => r matches Some(m) && m.span_id == Some(id) && m.name == name && m.attributes
                    == attributes && m.time_unix_nano == time_unix_nano,
                None => r is None,
            },
    {
        match spans.current {
            Some(span_id) => Some(SpanAddEventMessage { span_id: Some(span_id), name, time_unix_nano, attributes }),
            None => None,
        }
    }

    /// A link on the current span; `None` outside any span.
    pub fn add_link(spans: &ThreadSpans, link: SpanContext) -> (r: Option<SpanAddLinkMessage>)
        ensures
            r == match spans.current {
                Some(id) => Some(SpanAddLinkMessage { span_id: Some(id), link }),
                None => None,
            },
    {
        match spans.current {
            Some(span_id) => Some(SpanAddLinkMessage { span_id: Some(span_id), link }),
            None => None,
        }
    }

    /// An attribute on the current span; `None` outside any span.
    pub fn set_attribute(spans: &ThreadSpans, attribute: KeyValue) -> (r: Option<SpanSetAttributeMessage>)
        ensures
            match spans.current {
                Some(id) => r matches Some(m) && m.span_id == Some(id) && m.attribute == attribute,
                None => r is None,
            },
    {
        match spans.current {
            Some(span_id) => Some(SpanSetAttributeMessage { span_id: Some(span_id), attribute }),
            None => None,
        }
    }
}

/// Entering a span and exiting it again leaves the thread's current span as it was; spans
/// entered inside one another and exited in reverse order restore each level in turn.
pub proof fn lemma_enter_exit_restores(s: ThreadSpans, outer: SpanId, inner: SpanId)
    ensures
        exited(entered(s, outer).0, entered(s, outer).1) == s,
        ({
            let (s1, g1) = entered(s, outer);
            let (s2, g2) = entered(s1, inner);
            let s3 = exited(s2, g2);
            &&& s3 == s1
            &&& exited(s3, g1) == s
        }),
{
}


/// A log message recorded on a thread: it belongs to the thread's current span, if any.
pub fn log(spans: &ThreadSpans, severity: Severity, body: String, attributes: Vec<KeyValue>, time_unix_nano: u64) -> (r: LogMessage)
    ensures
        r.span_id == spans.current,
        r.severity == severity,
        r.body == body,
        r.attributes == attributes,
        r.time_unix_nano == time_unix_nano,
{
    LogMessage { span_id: spans.current, time_unix_nano, severity, body, attributes }
}

} // verus!
