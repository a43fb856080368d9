//! The line store of the telemetry server and how its lines are cut into messages for a
//! viewer: each message carries at most [`MAX_ITEMS`] lines, in order, from where the viewer
//! left off.

use vstd::prelude::*;

verus! {

/// The most lines a message carries.
pub const MAX_ITEMS: usize = 50;

/// The lines received so far, and whether the input has ended.
#[derive(Clone, Debug)]
pub struct TracingLineData {
    /// The lines, in the order they arrived.
    pub lines: Vec<String>,
    /// Whether the input has ended.
    pub done: bool,
}

impl Default for TracingLineData {
    /// No lines, input not ended.
    fn default() -> (r: Self)
        ensures
            r.lines@.len() == 0,
            !r.done,
    {
        TracingLineData { lines: Vec::new(), done: false }
    }
}

impl TracingLineData {
    /// Appends a line and returns how many lines there are now.
    pub fn push_line(&mut self, line: String) -> (n: usize)
        ensures
            final(self).lines@ == old(self).lines@.push(line),
            final(self).done == old(self).done,
            n == final(self).lines@.len(),
    {
        self.lines.push(line);
        self.lines.len()
    }

    /// Marks the input as ended.
    pub fn set_done(&mut self)
        ensures
            final(self).lines@ == old(self).lines@,
            final(self).done,
    {
        self.done = true;
    }
}

/// A batch of lines sent to a viewer.
#[derive(Clone, Debug)]
pub struct TracingMessage {
    /// How many lines the server holds in all.
    pub total: usize,
    /// Whether the input has ended.
    pub done: bool,
    /// The lines of this batch.
    pub lines: Vec<String>,
}

/// The lines of the batch that starts at `offset`: the next [`MAX_ITEMS`] lines, or fewer at
/// the end.
pub open spec fn batch_lines(lines: Seq<String>, offset: int) -> Seq<String> {
    if offset >= lines.len() {
        Seq::empty()
    } else if offset + MAX_ITEMS <= lines.len() {
        lines.subrange(offset, offset + MAX_ITEMS)
    } else {
        lines.subrange(offset, lines.len() as int)
    }
}

/// The message for a viewer that has received `offset` lines.
pub fn create_message(data: &TracingLineData, offset: usize) -> (m: TracingMessage)
    ensures
        m.total == data.lines@.len(),
        m.done == data.done,
        m.lines@ == batch_lines(data.lines@, offset as int),
{
    let n = data.lines.len();
    let mut lines: Vec<String> = Vec::new();
    if offset < n {
        let end = if n - offset >= MAX_ITEMS {
            offset + MAX_ITEMS
        } else {
            n
        };
        for i in offset..end
            invariant
                n == data.lines@.len(),
                offset <= end <= n,
                lines@ == data.lines@.subrange(offset as int, i as int),
        {
            lines.push(data.lines[i].clone());
            assert(lines@ =~= data.lines@.subrange(offset as int, i + 1));
        }
    } else {
        assert(lines@ =~= Seq::<String>::empty());
    }
    TracingMessage { total: n, done: data.done, lines }
}

/// How far a viewer gets: the message for it, if it is behind, and how many lines it has
/// received after that message.
pub fn next_message(data: &TracingLineData, sent: usize) -> (r: Option<(TracingMessage, usize)>)
    ensures
        match r {
            Some((m, next)) => sent < data.lines@.len() && m.total == data.lines@.len() && m.done
                == data.done && m.lines@ == batch_lines(data.lines@, sent as int) && next == sent
                + m.lines@.len(),
            None => sent >= data.lines@.len(),
        },
{
    if sent < data.lines.len() {
        let m = create_message(data, sent);
        let next = sent + m.lines.len();
        Some((m, next))
    } else {
        None
    }
}

/// The lines delivered by messages from `offset` on, until the viewer is caught up.
pub open spec fn delivered(lines: Seq<String>, offset: int) -> Seq<String>
    decreases lines.len() - offset,
{
    if offset < 0 || offset >= lines.len() {
        Seq::empty()
    } else {
        batch_lines(lines, offset) + delivered(lines, offset + batch_lines(lines, offset).len())
    }
}

/// Messages make progress and lose nothing: a viewer that is behind gets at least one line,
/// and the messages from any point on deliver exactly the remaining lines, in order.
pub proof fn lemma_messages_deliver_all(lines: Seq<String>, offset: int)
    requires
        0 <= offset <= lines.len(),
    ensures
        offset < lines.len() ==> batch_lines(lines, offset).len() > 0,
        delivered(lines, offset) == lines.subrange(offset, lines.len() as int),
    decreases lines.len() - offset,
{
    if offset < lines.len() {
        let b = batch_lines(lines, offset);
        lemma_messages_deliver_all(lines, offset + b.len());
        assert(lines.subrange(offset, lines.len() as int) =~= b + lines.subrange(
            offset + b.len(),
            lines.len() as int,
        ));
    } else {
        assert(lines.subrange(offset, lines.len() as int) =~= Seq::<String>::empty());
    }
}

/// Whether the line counter is shown again: every tenth line, or when at least 100 ms have
/// passed since it was last shown.
pub fn should_report(total_lines: usize, elapsed_ms: u128) -> (r: bool)
    ensures
        r == (total_lines % 10 == 0 || elapsed_ms >= 100),
{
    total_lines % 10 == 0 || elapsed_ms >= 100
}

} // verus!
