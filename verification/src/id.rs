//! Unique identifiers for processes, threads and spans, with their text forms.
//!
//! - [`ProcessId`]: a globally-unique id of a process, written as 32 lower-case hex digits.
//! - [`ThreadId`]: a process plus a non-zero thread number, written `process:thread`.
//! - [`SpanId`]: a process-unique id of a span, written as 16 lower-case hex digits.
//! - [`SpanContext`]: a process plus a span, written `process:span`.

use vstd::prelude::*;
use crate::hexfmt::{
    fixed_hex, lemma_fixed_hex_digits, lemma_parse_hex_fixed, lemma_pow16_values, parse_hex,
    parse_hex_spec, push_hex_fixed, ParseIntError,
};
use crate::text::{chars_of, push_char};
use rand::rngs::ThreadRng;

verus! {

/// The largest `u128`, as a mathematical integer.
pub open spec fn u128_max() -> nat {
    0xffff_ffff_ffff_ffff_ffff_ffff_ffff_ffff
}

/// The largest `u64`, as a mathematical integer.
pub open spec fn u64_max() -> nat {
    0xffff_ffff_ffff_ffff
}

/// The index of the first occurrence of `c` in `s`.
pub open spec fn find_char(s: Seq<char>, c: char) -> Option<nat>
    decreases s.len(),
{
    if s.len() == 0 {
        None
    } else if s[0] == c {
        Some(0)
    } else {
        match find_char(s.drop_first(), c) {
            Some(i) => Some(i + 1),
            None => None,
        }
    }
}

/// A globally-unique id identifying a process.
///
/// The primary purpose of this id is to provide a globally-unique context within which
/// [`ThreadId`]s and [`SpanContext`]s are guaranteed to be unique.
#[derive(Copy, Clone, Debug, Eq, PartialEq, Ord, PartialOrd, Hash, Default, Structural)]
pub struct ProcessId(u128);

impl View for ProcessId {
    type V = u128;

    closed spec fn view(&self) -> u128 {
        self.0
    }
}

/// The process id with raw value `v`.
pub closed spec fn process_id_of(v: u128) -> ProcessId {
    ProcessId(v)
}

/// The raw value of [`process_id_of`].
pub broadcast proof fn lemma_process_id_of(v: u128)
    ensures
        #[trigger] process_id_of(v)@ == v,
{
}

/// The process of a thread id.
pub closed spec fn thread_process(t: ThreadId) -> ProcessId {
    t.process
}

/// The process of a thread id carries the first component of its view.
pub broadcast proof fn lemma_thread_process(t: ThreadId)
    ensures
        #[trigger] thread_process(t) == process_id_of(t@.0),
{
}

/// Two process ids with the same raw value are the same id.
pub broadcast proof fn lemma_process_id_view_injective(a: ProcessId, b: ProcessId)
    ensures
        #![trigger a@, b@]
        a@ == b@ ==> a == b,
{
}

/// The text form of a process id: 32 lower-case hex digits.
pub open spec fn process_id_text(p: ProcessId) -> Seq<char> {
    fixed_hex(p@ as nat, 32)
}

/// The text form of a span id: 16 lower-case hex digits.
pub open spec fn span_id_text(s: SpanId) -> Seq<char> {
    fixed_hex(s.0 as nat, 16)
}

/// The text form of a thread id: `process:thread`, the thread as 16 lower-case hex digits.
pub open spec fn thread_id_text(t: ThreadId) -> Seq<char> {
    fixed_hex(t@.0 as nat, 32) + seq![':'] + fixed_hex(t@.1 as nat, 16)
}

/// The text form of a span context: `process:span`.
pub open spec fn span_context_text(c: SpanContext) -> Seq<char> {
    process_id_text(c.process_id) + seq![':'] + span_id_text(c.span_id)
}

/// The result of parsing a process id from text.
pub open spec fn parse_process_id(s: Seq<char>) -> Result<u128, ParseIntError> {
    match parse_hex_spec(s, u128_max()) {
        Ok(v) => Ok(v as u128),
        Err(k) => Err(ParseIntError { kind: k }),
    }
}

/// The result of parsing a span id from text.
pub open spec fn parse_span_id(s: Seq<char>) -> Result<u64, ParseIntError> {
    match parse_hex_spec(s, u64_max()) {
        Ok(v) => Ok(v as u64),
        Err(k) => Err(ParseIntError { kind: k }),
    }
}

impl ProcessId {
    /// Creates a [`ProcessId`] from a raw value.
    ///
    /// Extra care needs to be taken that this is not a constant value or re-used in any way.
    pub fn from_raw(raw: u128) -> (r: Self)
        ensures
            r@ == raw,
            r == process_id_of(raw),
    {
        ProcessId(raw)
    }

    /// Returns the raw value of this id.
    pub fn to_raw(self) -> (r: u128)
        ensures
            r == self@,
    {
        self.0
    }

    /// Uses a random number generator to generate the [`ProcessId`].
    ///
    /// Any value may come out; nothing about it is promised.
    pub fn random(rng: &mut ThreadRng) -> (r: Self) {
        ProcessId(random_u128(rng))
    }

    /// Renders the id as 32 lower-case hex digits.
    pub fn to_string(&self) -> (r: String)
        ensures
            r@ == process_id_text(*self),
    {
        let mut out = String::new();
        push_hex_fixed(&mut out, self.0, 32);
        out
    }

    /// Parses a process id written in hex (as `u128::from_str_radix(s, 16)` does).
    pub fn from_str(s: &str) -> (r: Result<Self, ParseIntError>)
        ensures
            match r {
                Ok(p) => parse_process_id(s@) == Ok::<u128, ParseIntError>(p@),
                Err(e) => parse_process_id(s@) == Err::<u128, ParseIntError>(e),
            },
    {
        let chars = chars_of(s);
        assert(chars@.subrange(0, chars@.len() as int) =~= chars@);
        match parse_hex(&chars, 0, chars.len(), u128::MAX) {
            Ok(v) => Ok(ProcessId(v)),
            Err(e) => Err(e),
        }
    }
}

/// Draws a random `u128` from a random number generator.
///
/// Wraps `rand::Rng::random::<u128>` on the thread-local generator; the value depends on the
/// generator's state, so nothing about it is stated.
#[verifier::external_body]
fn random_u128(rng: &mut ThreadRng) -> u128 {
    rand::Rng::random::<u128>(rng)
}

/// The thread-local random number generator of `rand`, carried through opaquely.
#[verifier::external_type_specification]
#[verifier::external_body]
pub struct ExThreadRng(ThreadRng);

/// A globally-unique id identifying a thread within a specific process.
///
/// The thread number is never zero: every constructor demands or checks it.
#[derive(Copy, Clone, Debug, Eq, PartialEq, Ord, PartialOrd, Hash, Structural)]
pub struct ThreadId {
    /// The globally-unique id for the process this thread is within.
    pub process: ProcessId,
    /// The process-unique id for this thread within the process.
    raw: u64,
}

impl View for ThreadId {
    type V = (u128, u64);

    closed spec fn view(&self) -> (u128, u64) {
        (self.process@, self.raw)
    }
}

/// Two thread ids with the same process and thread numbers are the same id.
pub broadcast proof fn lemma_thread_id_view_injective(a: ThreadId, b: ThreadId)
    ensures
        #![trigger a@, b@]
        a@ == b@ ==> a == b,
{
}

/// Errors that can occur while parsing [`ThreadId`] from a string.
#[derive(Clone, Copy, Debug, PartialEq, Eq, Structural)]
pub enum ParseThreadIdError {
    /// The string is missing a `:` separator.
    MissingSeparator,
    /// The embedded [`ProcessId`] failed to parse.
    InvalidProcessId(ParseIntError),
    /// The embedded thread number failed to parse.
    InvalidThreadId(ParseIntError),
    /// The embedded thread number was zero.
    ZeroThreadId,
}

impl ParseThreadIdError {
    /// The message of this error.
    pub fn to_string(&self) -> (r: &'static str)
        ensures
            r@ == match *self {
                ParseThreadIdError::MissingSeparator => "missing ':' separator"@,
                ParseThreadIdError::InvalidProcessId(_) => "failed to parse process id"@,
                ParseThreadIdError::InvalidThreadId(_) => "failed to parse thread id"@,
                ParseThreadIdError::ZeroThreadId => "zero thread id"@,
            },
    {
        match self {
            ParseThreadIdError::MissingSeparator => "missing ':' separator",
            ParseThreadIdError::InvalidProcessId(_) => "failed to parse process id",
            ParseThreadIdError::InvalidThreadId(_) => "failed to parse thread id",
            ParseThreadIdError::ZeroThreadId => "zero thread id",
        }
    }

    /// The underlying integer parse error, if any.
    pub fn source(&self) -> (r: Option<ParseIntError>)
        ensures
            r == match *self {
                ParseThreadIdError::InvalidProcessId(e) => Some(e),
                ParseThreadIdError::InvalidThreadId(e) => Some(e),
                _ => None::<ParseIntError>,
            },
    {
        match self {
            ParseThreadIdError::InvalidProcessId(e) => Some(*e),
            ParseThreadIdError::InvalidThreadId(e) => Some(*e),
            _ => None,
        }
    }
}

/// The result of parsing a thread id from text: the process and thread numbers, or the error.
///
/// The text is split at its first `:`; the left part is a process id and the right part a
/// non-zero thread number, both in hex.
pub open spec fn parse_thread_id(s: Seq<char>) -> Result<(u128, u64), ParseThreadIdError> {
    match find_char(s, ':') {
        None => Err(ParseThreadIdError::MissingSeparator),
        Some(i) => match parse_process_id(s.take(i as int)) {
            Err(e) => Err(ParseThreadIdError::InvalidProcessId(e)),
            Ok(p) => match parse_span_id(s.skip((i + 1) as int)) {
                Err(e) => Err(ParseThreadIdError::InvalidThreadId(e)),
                Ok(t) => if t == 0 {
                    Err(ParseThreadIdError::ZeroThreadId)
                } else {
                    Ok((p, t))
                },
            },
        },
    }
}

/// Finds the first `c` in `s`.
fn find_char_exec(s: &Vec<char>, c: char) -> (r: Option<usize>)
    ensures
        match r {
            Some(i) => find_char(s@, c) == Some(i as nat) && i < s.len() && s@[i as int] == c,
            None => find_char(s@, c) is None,
        },
{
    let mut i: usize = 0;
    while i < s.len()
        invariant
            i <= s.len(),
            forall|j: int| 0 <= j < i ==> s@[j] != c,
        decreases s.len() - i,
    {
        if s[i] == c {
            proof {
                lemma_find_char_at(s@, c, i as nat);
            }
            return Some(i);
        }
        i = i + 1;
    }
    proof {
        lemma_find_char_absent(s@, c);
    }
    None
}

proof fn lemma_find_char_at(s: Seq<char>, c: char, i: nat)
    requires
        i < s.len(),
        s[i as int] == c,
        forall|j: int| 0 <= j < i ==> s[j] != c,
    ensures
        find_char(s, c) == Some(i),
    decreases i,
{
    if i > 0 {
        lemma_find_char_at(s.drop_first(), c, (i - 1) as nat);
    }
}

proof fn lemma_find_char_absent(s: Seq<char>, c: char)
    requires
        forall|j: int| 0 <= j < s.len() ==> s[j] != c,
    ensures
        find_char(s, c) is None,
    decreases s.len(),
{
    if s.len() > 0 {
        lemma_find_char_absent(s.drop_first(), c);
    }
}

/// In `a + [c] + b` where `a` holds no `c`, the first `c` is at `a.len()`.
pub proof fn lemma_find_char_joined(a: Seq<char>, c: char, b: Seq<char>)
    requires
        forall|j: int| 0 <= j < a.len() ==> a[j] != c,
    ensures
        find_char(a + seq![c] + b, c) == Some(a.len()),
{
    let s = a + seq![c] + b;
    assert forall|j: int| 0 <= j < a.len() implies s[j] != c by {
        assert(s[j] == a[j]);
    }
    assert(s[a.len() as int] == c);
    lemma_find_char_at(s, c, a.len());
}

impl ThreadId {
    /// Creates a [`ThreadId`] from a process and a non-zero raw thread number.
    ///
    /// Extra care needs to be taken that this is not a constant value or re-used within this
    /// process in any way.
    pub fn from_raw(process: ProcessId, raw: u64) -> (r: Self)
        requires
            raw != 0,
        ensures
            r@ == (process@, raw),
    {
        ThreadId { process, raw }
    }

    /// Returns the process this thread belongs to.
    pub fn process(&self) -> (r: ProcessId)
        ensures
            r@ == self@.0,
            r == thread_process(*self),
    {
        self.process
    }

    /// Returns the raw (non-zero) thread number of this id.
    pub fn raw(&self) -> (r: u64)
        ensures
            r == self@.1,
    {
        self.raw
    }

    /// Renders the id as `process:thread` in lower-case hex (32 and 16 digits).
    pub fn to_string(&self) -> (r: String)
        ensures
            r@ == thread_id_text(*self),
    {
        let mut out = String::new();
        push_hex_fixed(&mut out, self.process.0, 32);
        push_char(&mut out, ':');
        push_hex_fixed(&mut out, self.raw as u128, 16);
        out
    }

    /// Parses a thread id written as `process:thread` in hex.
    pub fn from_str(s: &str) -> (r: Result<Self, ParseThreadIdError>)
        ensures
            match r {
                Ok(t) => parse_thread_id(s@) == Ok::<(u128, u64), ParseThreadIdError>(t@),
                Err(e) => parse_thread_id(s@) == Err::<(u128, u64), ParseThreadIdError>(e),
            },
    {
        let chars = chars_of(s);
        let sep = match find_char_exec(&chars, ':') {
            None => return Err(ParseThreadIdError::MissingSeparator),
            Some(i) => i,
        };
        proof {
            assert(chars@.subrange(0, sep as int) =~= chars@.take(sep as int));
            assert(chars@.subrange(sep + 1, chars@.len() as int) =~= chars@.skip(sep + 1));
        }
        let process = match parse_hex(&chars, 0, sep, u128::MAX) {
            Ok(v) => v,
            Err(e) => return Err(ParseThreadIdError::InvalidProcessId(e)),
        };
        let thread = match parse_hex(&chars, sep + 1, chars.len(), u64::MAX as u128) {
            Ok(v) => v as u64,
            Err(e) => return Err(ParseThreadIdError::InvalidThreadId(e)),
        };
        if thread == 0 {
            return Err(ParseThreadIdError::ZeroThreadId);
        }
        Ok(ThreadId { process: ProcessId(process), raw: thread })
    }
}

/// A process-unique id for a span: the process's [`SpanIdCounter`] hands out each id once.
#[derive(Copy, Clone, Debug, Eq, PartialEq, Ord, PartialOrd, Hash, Structural)]
pub struct SpanId(pub u64);

/// The source of a process's span ids: it hands them out in increasing order starting at 1,
/// so that every id it hands out is non-zero and handed out once.
#[derive(Debug)]
pub struct SpanIdCounter {
    next: u64,
}

impl View for SpanIdCounter {
    type V = u64;

    /// The id the counter hands out next.
    closed spec fn view(&self) -> u64 {
        self.next
    }
}

impl SpanIdCounter {
    /// The next id is never zero.
    #[verifier::type_invariant]
    closed spec fn inv(&self) -> bool {
        self.next >= 1
    }

    /// A counter that has handed out nothing: its first id is 1.
    pub fn new() -> (r: Self)
        ensures
            r@ == 1,
    {
        SpanIdCounter { next: 1 }
    }

    /// The id the counter hands out next.
    pub fn peek(&self) -> (r: u64)
        ensures
            r == self@,
            r >= 1,
    {
        proof {
            use_type_invariant(self);
        }
        self.next
    }
}

/// The ids that `n` successive calls of [`SpanId::next_id`] hand out from a counter at `start`.
pub open spec fn issued(start: nat, n: nat) -> Seq<nat> {
    Seq::new(n, |i: int| (start + i) as nat)
}

/// The ids a counter hands out are pairwise distinct, and none is zero when the counter starts
/// at 1 or later; the next id differs from all of them.
pub proof fn lemma_issued_distinct(start: nat, n: nat)
    requires
        start >= 1,
    ensures
        issued(start, n).no_duplicates(),
        forall|i: int| 0 <= i < n ==> #[trigger] issued(start, n)[i] != 0,
        !issued(start, n).contains(start + n),
{
    assert forall|i: int, j: int| 0 <= i < issued(start, n).len() && 0 <= j < issued(start, n).len() && i != j
        implies issued(start, n)[i] != issued(start, n)[j] by {}
    if issued(start, n).contains(start + n) {
        let k = choose|k: int| 0 <= k < issued(start, n).len() && issued(start, n)[k] == start + n;
        assert(issued(start, n)[k] == start + k);
    }
}

impl SpanId {
    /// Creates a non-zero [`SpanId`]: the counter's next id, after which the counter moves on
    /// by one.
    pub fn next_id(counter: &mut SpanIdCounter) -> (r: Self)
        requires
            old(counter)@ < u64::MAX,
        ensures
            r.0 == old(counter)@,
            r.0 != 0,
            final(counter)@ == old(counter)@ + 1,
    {
        proof {
            use_type_invariant(&*counter);
        }
        let id = counter.next;
        counter.next = id + 1;
        SpanId(id)
    }

    /// Renders the id as 16 lower-case hex digits.
    pub fn to_string(&self) -> (r: String)
        ensures
            r@ == span_id_text(*self),
    {
        let mut out = String::new();
        push_hex_fixed(&mut out, self.0 as u128, 16);
        out
    }

    /// Parses a span id written in hex (as `u64::from_str_radix(s, 16)` does).
    pub fn from_str(s: &str) -> (r: Result<Self, ParseIntError>)
        ensures
            match r {
                Ok(id) => parse_span_id(s@) == Ok::<u64, ParseIntError>(id.0),
                Err(e) => parse_span_id(s@) == Err::<u64, ParseIntError>(e),
            },
    {
        let chars = chars_of(s);
        assert(chars@.subrange(0, chars@.len() as int) =~= chars@);
        match parse_hex(&chars, 0, chars.len(), u64::MAX as u128) {
            Ok(v) => Ok(SpanId(v as u64)),
            Err(e) => Err(e),
        }
    }
}

/// The context of a span: its [`ProcessId`] and [`SpanId`].
#[derive(Copy, Clone, Debug, Eq, PartialEq, Ord, PartialOrd, Hash, Structural)]
pub struct SpanContext {
    /// The id of the process this span belongs to.
    pub process_id: ProcessId,
    /// The unique id of this span.
    pub span_id: SpanId,
}

/// Errors that can occur while parsing [`SpanContext`] from a string.
#[derive(Clone, Copy, Debug, PartialEq, Eq, Structural)]
pub enum ParseSpanContextError {
    /// The string is missing a `:` separator.
    MissingSeparator,
    /// The embedded [`ProcessId`] failed to parse.
    InvalidProcessId(ParseIntError),
    /// The embedded [`SpanId`] failed to parse.
    InvalidSpanId(ParseIntError),
}

impl ParseSpanContextError {
    /// The message of this error.
    pub fn to_string(&self) -> (r: &'static str)
        ensures
            r@ == match *self {
                ParseSpanContextError::MissingSeparator => "missing ':' separator"@,
                ParseSpanContextError::InvalidProcessId(_) => "failed to parse process id"@,
                ParseSpanContextError::InvalidSpanId(_) => "failed to parse span id"@,
            },
    {
        match self {
            ParseSpanContextError::MissingSeparator => "missing ':' separator",
            ParseSpanContextError::InvalidProcessId(_) => "failed to parse process id",
            ParseSpanContextError::InvalidSpanId(_) => "failed to parse span id",
        }
    }

    /// The underlying integer parse error, if any.
    pub fn source(&self) -> (r: Option<ParseIntError>)
        ensures
            r == match *self {
                ParseSpanContextError::InvalidProcessId(e) => Some(e),
                ParseSpanContextError::InvalidSpanId(e) => Some(e),
                _ => None::<ParseIntError>,
            },
    {
        match self {
            ParseSpanContextError::InvalidProcessId(e) => Some(*e),
            ParseSpanContextError::InvalidSpanId(e) => Some(*e),
            _ => None,
        }
    }
}

/// The result of parsing a span context from text: process and span numbers, or the error.
pub open spec fn parse_span_context(s: Seq<char>) -> Result<(u128, u64), ParseSpanContextError> {
    match find_char(s, ':') {
        None => Err(ParseSpanContextError::MissingSeparator),
        Some(i) => match parse_process_id(s.take(i as int)) {
            Err(e) => Err(ParseSpanContextError::InvalidProcessId(e)),
            Ok(p) => match parse_span_id(s.skip((i + 1) as int)) {
                Err(e) => Err(ParseSpanContextError::InvalidSpanId(e)),
                Ok(t) => Ok((p, t)),
            },
        },
    }
}

/// Both parts of a span context must be there: nothing before the first `:` is an invalid
/// (empty) process id, and nothing after it, behind a valid process id, an invalid (empty) span
/// id.
pub proof fn lemma_span_context_parts_required(s: Seq<char>)
    ensures
        s.len() > 0 && s[0] == ':' ==> parse_span_context(s) == Err::<(u128, u64), ParseSpanContextError>(
            ParseSpanContextError::InvalidProcessId(ParseIntError { kind: crate::hexfmt::IntErrorKind::Empty }),
        ),
        s.len() > 0 && find_char(s, ':') == Some((s.len() - 1) as nat) && parse_process_id(
            s.take(s.len() - 1),
        ) is Ok ==> parse_span_context(s) == Err::<(u128, u64), ParseSpanContextError>(
            ParseSpanContextError::InvalidSpanId(ParseIntError { kind: crate::hexfmt::IntErrorKind::Empty }),
        ),
{
    if s.len() > 0 && s[0] == ':' {
        assert(s.take(0) =~= Seq::<char>::empty());
    }
    if s.len() > 0 && find_char(s, ':') == Some((s.len() - 1) as nat) {
        assert(s.skip(s.len() as int) =~= Seq::<char>::empty());
    }
}

impl SpanContext {
    /// Creates a new `SpanContext` with the given [`ProcessId`] and [`SpanId`].
    pub fn new(process_id: ProcessId, span_id: SpanId) -> (r: Self)
        ensures
            r.process_id == process_id,
            r.span_id == span_id,
    {
        SpanContext { process_id, span_id }
    }

    /// Renders the context as `process:span` in lower-case hex (32 and 16 digits).
    pub fn to_string(&self) -> (r: String)
        ensures
            r@ == span_context_text(*self),
    {
        let mut out = String::new();
        push_hex_fixed(&mut out, self.process_id.0, 32);
        push_char(&mut out, ':');
        push_hex_fixed(&mut out, self.span_id.0 as u128, 16);
        out
    }

    /// Parses a span context written as `process:span` in hex.
    pub fn from_str(s: &str) -> (r: Result<Self, ParseSpanContextError>)
        ensures
            match r {
                Ok(c) => parse_span_context(s@) == Ok::<(u128, u64), ParseSpanContextError>(
                    (c.process_id@, c.span_id.0),
                ),
                Err(e) => parse_span_context(s@) == Err::<(u128, u64), ParseSpanContextError>(e),
            },
    {
        let chars = chars_of(s);
        let sep = match find_char_exec(&chars, ':') {
            None => return Err(ParseSpanContextError::MissingSeparator),
            Some(i) => i,
        };
        proof {
            assert(chars@.subrange(0, sep as int) =~= chars@.take(sep as int));
            assert(chars@.subrange(sep + 1, chars@.len() as int) =~= chars@.skip(sep + 1));
        }
        let process = match parse_hex(&chars, 0, sep, u128::MAX) {
            Ok(v) => v,
            Err(e) => return Err(ParseSpanContextError::InvalidProcessId(e)),
        };
        let span = match parse_hex(&chars, sep + 1, chars.len(), u64::MAX as u128) {
            Ok(v) => v as u64,
            Err(e) => return Err(ParseSpanContextError::InvalidSpanId(e)),
        };
        Ok(SpanContext { process_id: ProcessId(process), span_id: SpanId(span) })
    }
}

/// Parsing the text form of a process id gives the id back.
pub proof fn lemma_process_id_text_roundtrip(p: ProcessId)
    ensures
        parse_process_id(process_id_text(p)) == Ok::<u128, ParseIntError>(p@),
{
    lemma_pow16_values();
    lemma_parse_hex_fixed(p@ as nat, 32, u128_max());
}

/// Parsing the text form of a span id gives the id back.
pub proof fn lemma_span_id_text_roundtrip(s: SpanId)
    ensures
        parse_span_id(span_id_text(s)) == Ok::<u64, ParseIntError>(s.0),
{
    lemma_pow16_values();
    lemma_parse_hex_fixed(s.0 as nat, 16, u64_max());
}

/// Splitting `fixed_hex(a, 32) + ":" + fixed_hex(b, 16)` at its first `:` gives back the parts.
proof fn lemma_split_pair(a: nat, b: nat)
    ensures
        ({
            let s = fixed_hex(a, 32) + seq![':'] + fixed_hex(b, 16);
            &&& find_char(s, ':') == Some(32nat)
            &&& s.take(32) == fixed_hex(a, 32)
            &&& s.skip(33) == fixed_hex(b, 16)
        }),
{
    let s = fixed_hex(a, 32) + seq![':'] + fixed_hex(b, 16);
    lemma_fixed_hex_digits(a, 32);
    lemma_fixed_hex_digits(b, 16);
    lemma_find_char_joined(fixed_hex(a, 32), ':', fixed_hex(b, 16));
    assert(s.take(32) =~= fixed_hex(a, 32));
    assert(s.skip(33) =~= fixed_hex(b, 16));
}

/// Parsing the text form of a (non-zero) thread id gives the id back.
pub proof fn lemma_thread_id_text_roundtrip(t: ThreadId)
    requires
        t@.1 != 0,
    ensures
        parse_thread_id(thread_id_text(t)) == Ok::<(u128, u64), ParseThreadIdError>(t@),
{
    lemma_split_pair(t@.0 as nat, t@.1 as nat);
    lemma_pow16_values();
    lemma_parse_hex_fixed(t@.0 as nat, 32, u128_max());
    lemma_parse_hex_fixed(t@.1 as nat, 16, u64_max());
}

/// Parsing the text form of a span context gives the context back.
pub proof fn lemma_span_context_text_roundtrip(c: SpanContext)
    ensures
        parse_span_context(span_context_text(c)) == Ok::<(u128, u64), ParseSpanContextError>(
            (c.process_id@, c.span_id.0),
        ),
{
    lemma_split_pair(c.process_id@ as nat, c.span_id.0 as nat);
    lemma_pow16_values();
    lemma_parse_hex_fixed(c.process_id@ as nat, 32, u128_max());
    lemma_parse_hex_fixed(c.span_id.0 as nat, 16, u64_max());
}


impl std::str::FromStr for ProcessId {
    type Err = ParseIntError;

    fn from_str(s: &str) -> (r: Result<Self, Self::Err>)
        ensures
            match r {
                Ok(p) => parse_process_id(s@) == Ok::<u128, ParseIntError>(p@),
                Err(e) => parse_process_id(s@) == Err::<u128, ParseIntError>(e),
            },
    {
        ProcessId::from_str(s)
    }
}

impl std::str::FromStr for ThreadId {
    type Err = ParseThreadIdError;

    fn from_str(s: &str) -> (r: Result<Self, Self::Err>)
        ensures
            match r {
                Ok(t) => parse_thread_id(s@) == Ok::<(u128, u64), ParseThreadIdError>(t@),
                Err(e) => parse_thread_id(s@) == Err::<(u128, u64), ParseThreadIdError>(e),
            },
    {
        ThreadId::from_str(s)
    }
}

impl std::str::FromStr for SpanId {
    type Err = ParseIntError;

    fn from_str(s: &str) -> (r: Result<Self, Self::Err>)
        ensures
            match r {
                Ok(id) => parse_span_id(s@) == Ok::<u64, ParseIntError>(id.0),
                Err(e) => parse_span_id(s@) == Err::<u64, ParseIntError>(e),
            },
    {
        SpanId::from_str(s)
    }
}

impl std::str::FromStr for SpanContext {
    type Err = ParseSpanContextError;

    fn from_str(s: &str) -> (r: Result<Self, Self::Err>)
        ensures
            match r {
                Ok(c) => parse_span_context(s@) == Ok::<(u128, u64), ParseSpanContextError>(
                    (c.process_id@, c.span_id.0),
                ),
                Err(e) => parse_span_context(s@) == Err::<(u128, u64), ParseSpanContextError>(e),
            },
    {
        SpanContext::from_str(s)
    }
}

} // verus!
