//! Filters over the logs and spans of a store: case-insensitive substring filters on text,
//! and set filters that admit everything while empty.

use vstd::prelude::*;
use crate::protocol::ThreadId;
use crate::store::{Level, Log, LogRef, Span, SpanRef, Store};
use crate::text::chars_of;

verus! {

/// The lower-case form of a text, as `str::to_lowercase` computes it (Unicode case mapping).
pub uninterp spec fn lowercase(s: Seq<char>) -> Seq<char>;

/// Lower-cases a text.
///
/// Wraps `str::to_lowercase`, whose result depends on the text alone; it is named
/// [`lowercase`] and nothing more is stated of it.
#[verifier::external_body]
fn to_lowercase(s: &str) -> (r: String)
    ensures
        r@ == lowercase(s@),
{
    s.to_lowercase()
}

/// `needle` occurs in `hay` starting at position `i`.
pub open spec fn occurs_at(hay: Seq<char>, needle: Seq<char>, i: int) -> bool {
    0 <= i && i + needle.len() <= hay.len() && hay.subrange(i, i + needle.len()) == needle
}

/// `needle` occurs somewhere in `hay`.
pub open spec fn is_substring(needle: Seq<char>, hay: Seq<char>) -> bool {
    exists|i: int| #[trigger] occurs_at(hay, needle, i)
}

/// A text filter admits a value when the filter is empty or, ignoring case, occurs in it.
pub open spec fn text_admits(filter: Seq<char>, value: Seq<char>) -> bool {
    filter.len() == 0 || is_substring(lowercase(filter), lowercase(value))
}

/// A set filter admits a value when it holds no values or holds this one.
pub open spec fn set_admits<T>(values: Seq<T>, value: T) -> bool {
    values.len() == 0 || values.contains(value)
}

/// A set filter on texts admits a text when it holds no texts or holds one equal to it.
pub open spec fn text_set_admits(values: Seq<String>, value: String) -> bool {
    values.len() == 0 || exists|i: int| 0 <= i < values.len() && (#[trigger] values[i])@ == value@
}

/// Whether `needle` occurs in `hay`.
pub fn contains_chars(hay: &Vec<char>, needle: &Vec<char>) -> (r: bool)
    ensures
        r == is_substring(needle@, hay@),
{
    let n = needle.len();
    let h = hay.len();
    if n > h {
        assert forall|i: int| !occurs_at(hay@, needle@, i) by {}
        return false;
    }
    let mut i: usize = 0;
    while i <= h - n
        invariant
            n == needle.len(),
            h == hay.len(),
            n <= h,
            i <= h - n + 1,
            forall|k: int| 0 <= k < i ==> !#[trigger] occurs_at(hay@, needle@, k),
        decreases h - i,
    {
        let mut j: usize = 0;
        let mut same = true;
        while j < n
            invariant
                n == needle.len(),
                h == hay.len(),
                i + n <= h,
                j <= n,
                same <==> forall|q: int| 0 <= q < j ==> hay@[i + q] == needle@[q],
            decreases n - j,
        {
            if hay[i + j] != needle[j] {
                same = false;
            }
            j = j + 1;
        }
        if same {
            assert(hay@.subrange(i as int, i + n) =~= needle@);
            assert(occurs_at(hay@, needle@, i as int));
            return true;
        }
        proof {
            if occurs_at(hay@, needle@, i as int) {
                let q = choose|q: int| 0 <= q < n && hay@[i + q] != needle@[q];
                assert(hay@.subrange(i as int, i + n)[q] == hay@[i + q]);
            }
        }
        i = i + 1;
    }
    assert forall|k: int| !occurs_at(hay@, needle@, k) by {
        if 0 <= k && k + n <= h {
            assert(k < i);
        }
    }
    false
}

/// A filter on text: it admits a value that contains its text, ignoring case.
#[derive(Debug)]
pub struct StringFilter {
    string: String,
}

impl View for StringFilter {
    type V = Seq<char>;

    closed spec fn view(&self) -> Seq<char> {
        self.string@
    }
}

impl Default for StringFilter {
    /// An empty filter, which admits everything.
    fn default() -> (r: Self)
        ensures
            r@ == Seq::<char>::empty(),
    {
        StringFilter { string: String::new() }
    }
}

impl StringFilter {
    /// Replaces the filter's text.
    pub fn set(&mut self, string: String)
        ensures
            final(self)@ == string@,
    {
        self.string = string;
    }

    /// Whether the filter admits `value`: it is empty, or its text occurs in the value when
    /// both are lower-cased.
    pub fn matches(&self, value: &str) -> (r: bool)
        ensures
            r == text_admits(self@, value@),
    {
        let text = self.string.as_str();
        if text.is_empty() {
            return true;
        }
        assert(self@.len() != 0);
        let v = to_lowercase(value);
        let f = to_lowercase(text);
        let hay = chars_of(v.as_str());
        let needle = chars_of(f.as_str());
        contains_chars(&hay, &needle)
    }

    /// The filter's text.
    pub fn as_str(&self) -> (r: &str)
        ensures
            r@ == self@,
    {
        self.string.as_str()
    }

    /// Whether the filter's text is empty.
    pub fn is_empty(&self) -> (r: bool)
        ensures
            r == (self@.len() == 0),
    {
        self.string.as_str().is_empty()
    }
}

/// A filter on values: it admits every value while empty, and otherwise the values it holds.
/// The values are kept as given; holding one twice changes nothing.
#[derive(Debug)]
pub struct SetFilter<T> {
    values: Vec<T>,
}

impl<T> View for SetFilter<T> {
    type V = Seq<T>;

    closed spec fn view(&self) -> Seq<T> {
        self.values@
    }
}

impl<T> Default for SetFilter<T> {
    /// An empty filter, which admits everything.
    fn default() -> (r: Self)
        ensures
            r@ == Seq::<T>::empty(),
    {
        SetFilter { values: Vec::new() }
    }
}

impl<T> SetFilter<T> {
    /// Replaces the filter's values.
    pub fn set(&mut self, values: Vec<T>)
        ensures
            final(self)@ == values@,
    {
        self.values = values;
    }

    /// Whether the filter holds no values.
    pub fn is_empty(&self) -> (r: bool)
        ensures
            r == (self@.len() == 0),
    {
        self.values.len() == 0
    }

    /// The filter's values.
    pub fn values(&self) -> (r: &Vec<T>)
        ensures
            r@ == self@,
    {
        &self.values
    }
}

impl SetFilter<Level> {
    /// Whether the filter admits `value`: it is empty, or holds the level.
    pub fn matches(&self, value: &Level) -> (r: bool)
        ensures
            r == set_admits(self@, *value),
    {
        if self.values.len() == 0 {
            return true;
        }
        for i in 0..self.values.len()
            invariant
                forall|j: int| 0 <= j < i ==> self.values@[j] != *value,
        {
            if self.values[i] == *value {
                return true;
            }
        }
        false
    }
}

/// The values a level checkbox asks for: the level added if checked and not yet held, or
/// every copy of it removed if unchecked.
pub open spec fn levels_toggled(values: Seq<Level>, level: Level, checked: bool) -> Seq<Level> {
    if checked {
        if values.contains(level) {
            values
        } else {
            values.push(level)
        }
    } else {
        values.filter(other_level(level))
    }
}

/// Whether a level differs from `level`.
pub open spec fn other_level(level: Level) -> spec_fn(Level) -> bool {
    |x: Level| x != level
}

/// Whether a text differs from `actor`.
pub open spec fn other_text(actor: Seq<char>) -> spec_fn(Seq<char>) -> bool {
    |x: Seq<char>| x != actor
}

/// The texts an actor checkbox asks for: the actor added if checked and not yet held, or every
/// equal text removed if unchecked.
pub open spec fn actors_toggled(values: Seq<String>, actor: Seq<char>) -> Seq<Seq<char>> {
    values.map_values(|x: String| x@).filter(other_text(actor))
}

impl SetFilter<Level> {
    /// The filter values after the checkbox of `level` is set to `checked`, for a
    /// [`SystemCommand::SetLevelFilter`](crate::command::SystemCommand).
    pub fn toggled(&self, level: Level, checked: bool) -> (r: Vec<Level>)
        ensures
            r@ == levels_toggled(self@, level, checked),
    {
        let held = self.matches_exactly(&level);
        if checked {
            let mut r = self.values.clone();
            assert(r@ =~= self@);
            if !held {
                r.push(level);
            }
            return r;
        }
        let mut r: Vec<Level> = Vec::new();
        let ghost pred = other_level(level);
        proof {
            reveal(Seq::filter);
            assert(self@.take(0) =~= Seq::<Level>::empty());
        }
        for i in 0..self.values.len()
            invariant
                pred == other_level(level),
                r@ == self@.take(i as int).filter(pred),
        {
            let x = self.values[i];
            proof {
                reveal(Seq::filter);
                assert(self@.take(i + 1).drop_last() =~= self@.take(i as int));
                assert(self@.take(i + 1).last() == x);
            }
            if x != level {
                r.push(x);
            }
        }
        assert(self@.take(self.values.len() as int) =~= self@);
        r
    }

    /// Whether the filter holds `level` itself (unlike [`SetFilter::matches`], an empty filter
    /// holds nothing).
    fn matches_exactly(&self, level: &Level) -> (r: bool)
        ensures
            r == self@.contains(*level),
    {
        for i in 0..self.values.len()
            invariant
                forall|j: int| 0 <= j < i ==> self.values@[j] != *level,
        {
            if self.values[i] == *level {
                return true;
            }
        }
        false
    }
}

impl SetFilter<String> {
    /// The filter values after the checkbox of `actor` is set to `checked`, for a
    /// [`SystemCommand::SetActorFilter`](crate::command::SystemCommand): as texts, the actor
    /// added if checked and not yet held, or every equal text removed if unchecked.
    pub fn toggled(&self, actor: &str, checked: bool) -> (r: Vec<String>)
        ensures
            checked ==> (exists|i: int| 0 <= i < self@.len() && (#[trigger] self@[i])@ == actor@) ==> r@.map_values(|x: String| x@) == self@.map_values(|x: String| x@),
            checked ==> !(exists|i: int| 0 <= i < self@.len() && (#[trigger] self@[i])@ == actor@) ==> r@.map_values(|x: String| x@) == self@.map_values(|x: String| x@).push(actor@),
            !checked ==> r@.map_values(|x: String| x@) == actors_toggled(self@, actor@),
    {
        let ghost all = self@.map_values(|x: String| x@);
        let ghost pred = other_text(actor@);
        let wanted = actor.to_owned();
        let mut r: Vec<String> = Vec::new();
        let mut held = false;
        proof {
            reveal(Seq::filter);
            assert(all.take(0) =~= Seq::<Seq<char>>::empty());
        }
        for i in 0..self.values.len()
            invariant
                all == self@.map_values(|x: String| x@),
                pred == other_text(actor@),
                wanted@ == actor@,
                held == (exists|j: int| 0 <= j < i && (#[trigger] self@[j])@ == actor@),
                checked ==> r@.map_values(|x: String| x@) == all.take(i as int),
                !checked ==> r@.map_values(|x: String| x@) == all.take(i as int).filter(pred),
        {
            let x = &self.values[i];
            let same = *x == wanted;
            let ghost before = r@;
            proof {
                reveal(Seq::filter);
                assert(all.take(i + 1).drop_last() =~= all.take(i as int));
                assert(all.take(i + 1).last() == x@);
            }
            if checked || !same {
                r.push(x.clone());
                assert(r@.map_values(|y: String| y@) =~= before.map_values(|y: String| y@).push(x@));
            }
            if same {
                held = true;
            }
            assert(held == (exists|j: int| 0 <= j < i + 1 && (#[trigger] self@[j])@ == actor@)) by {
                if same {
                    assert(self@[i as int]@ == actor@);
                }
            }
        }
        assert(all.take(self.values.len() as int) =~= all);
        if checked && !held {
            let ghost before = r@;
            r.push(actor.to_owned());
            assert(r@.map_values(|y: String| y@) =~= before.map_values(|y: String| y@).push(actor@));
        }
        r
    }
}

impl SetFilter<ThreadId> {
    /// Whether the filter admits `value`: it is empty, or holds the thread.
    pub fn matches(&self, value: &ThreadId) -> (r: bool)
        ensures
            r == set_admits(self@, *value),
    {
        if self.values.len() == 0 {
            return true;
        }
        for i in 0..self.values.len()
            invariant
                forall|j: int| 0 <= j < i ==> self.values@[j] != *value,
        {
            if self.values[i] == *value {
                return true;
            }
        }
        false
    }
}

impl SetFilter<String> {
    /// Whether the filter admits `value`: it is empty, or holds an equal text.
    pub fn matches(&self, value: &String) -> (r: bool)
        ensures
            r == text_set_admits(self@, *value),
    {
        if self.values.len() == 0 {
            return true;
        }
        for i in 0..self.values.len()
            invariant
                forall|j: int| 0 <= j < i ==> self.values@[j]@ != value@,
        {
            if self.values[i] == *value {
                return true;
            }
        }
        false
    }
}

/// The filters of the log and span views.
#[derive(Debug)]
pub struct Filters {
    /// Admitted log levels.
    pub level: SetFilter<Level>,
    /// Text of the target.
    pub target: StringFilter,
    /// Text of the source file.
    pub file: StringFilter,
    /// Text of the log message.
    pub message: StringFilter,
    /// Admitted actors.
    pub actor: SetFilter<String>,
    /// Admitted threads.
    pub thread: SetFilter<ThreadId>,
}

/// Every filter of `f` is empty.
pub open spec fn all_empty(f: Filters) -> bool {
    &&& f.level@.len() == 0
    &&& f.target@.len() == 0
    &&& f.file@.len() == 0
    &&& f.message@.len() == 0
    &&& f.actor@.len() == 0
    &&& f.thread@.len() == 0
}

impl Default for Filters {
    /// No filter set: everything is admitted.
    fn default() -> (r: Self)
        ensures
            all_empty(r),
    {
        Filters {
            level: SetFilter::default(),
            target: StringFilter::default(),
            file: StringFilter::default(),
            message: StringFilter::default(),
            actor: SetFilter::default(),
            thread: SetFilter::default(),
        }
    }
}

impl Filters {
    /// Resets every filter to empty.
    pub fn clear(&mut self)
        ensures
            all_empty(*final(self)),
    {
        *self = Filters::default();
    }

    /// Whether any filter is set.
    pub fn has_active_filters(&self) -> (r: bool)
        ensures
            r == !all_empty(*self),
    {
        !self.target.is_empty() || !self.file.is_empty() || !self.actor.is_empty()
            || !self.level.is_empty() || !self.message.is_empty() || !self.thread.is_empty()
    }
}


/// The text of an optional file name: empty when there is none.
pub open spec fn file_text(file: Option<String>) -> Seq<char> {
    match file {
        Some(f) => f@,
        None => Seq::empty(),
    }
}

/// Whether the filters admit a log: by level, target, file, actor, message and thread.
pub open spec fn log_admitted(f: Filters, l: Log) -> bool {
    &&& set_admits(f.level@, l.metadata.level)
    &&& text_admits(f.target@, l.metadata.target@)
    &&& text_admits(f.file@, file_text(l.metadata.file))
    &&& text_set_admits(f.actor@, l.actor)
    &&& text_admits(f.message@, l.body@)
    &&& set_admits(f.thread@, l.thread_id)
}

/// [`log_admitted`] as a predicate on logs.
pub open spec fn admits_log(f: Filters) -> spec_fn(Log) -> bool {
    |l: Log| log_admitted(f, l)
}

/// Whether the filters admit a span: by target, file, actor and thread.
pub open spec fn span_admitted(f: Filters, s: Span) -> bool {
    &&& text_admits(f.target@, s.metadata.target@)
    &&& text_admits(f.file@, file_text(s.metadata.file))
    &&& text_set_admits(f.actor@, s.actor)
    &&& set_admits(f.thread@, s.thread_id)
}

/// The file name of a span or log, or the empty text.
fn file_or_empty(file: &Option<String>) -> (r: &str)
    ensures
        r@ == file_text(*file),
{
    proof {
        reveal_strlit("");
    }
    match file {
        Some(f) => f.as_str(),
        None => "",
    }
}

impl Filters {
    /// Whether the filters admit a log.
    pub fn log_matches(&self, log: &Log) -> (r: bool)
        ensures
            r == log_admitted(*self, *log),
    {
        proof {
            reveal_strlit("");
        }
        self.level.matches(&log.metadata.level) && self.target.matches(log.metadata.target.as_str())
            && self.file.matches(file_or_empty(&log.metadata.file)) && self.actor.matches(&log.actor)
            && self.message.matches(log.body.as_str()) && self.thread.matches(&log.thread_id)
    }

    /// The logs of a store that the filters admit, in order.
    pub fn filter_logs<'a>(&'a self, store: &'a Store) -> (r: Vec<LogRef<'a>>)
        ensures
            r.len() <= store.log_values().len(),
            r@.map_values(|l: LogRef<'a>| l.entry()) == store.log_values().filter(
                admits_log(*self),
            ),
    {
        let all = store.logs();
        let ghost logs = store.log_values();
        let ghost pred = admits_log(*self);
        let mut out: Vec<LogRef<'a>> = Vec::new();
        assert(logs.take(0) =~= Seq::<Log>::empty());
        proof {
            reveal(Seq::filter);
        }
        for i in 0..all.len()
            invariant
                all.len() == logs.len(),
                logs == store.log_values(),
                pred == admits_log(*self),
                forall|j: int| 0 <= j < all.len() ==> (#[trigger] all[j]).entry() == logs[j],
                out.len() <= i,
                out@.map_values(|l: LogRef<'a>| l.entry()) == logs.take(i as int).filter(pred),
        {
            let lr = all[i];
            let keep = self.log_matches(lr.log());
            proof {
                reveal(Seq::filter);
                assert(logs.take(i + 1).drop_last() =~= logs.take(i as int));
                assert(logs.take(i + 1).last() == logs[i as int]);
            }
            let ghost before = out@;
            if keep {
                out.push(lr);
                assert(out@.map_values(|l: LogRef<'a>| l.entry()) =~= before.map_values(|l: LogRef<'a>| l.entry()).push(lr.entry()));
            }
            proof {
                assert(lr.entry() == logs[i as int]);
                assert(keep == log_admitted(*self, logs[i as int]));
                assert(pred(logs[i as int]) == log_admitted(*self, logs[i as int]));
                assert(logs.take(i + 1).filter(pred) == if pred(logs[i as int]) {
                    logs.take(i as int).filter(pred).push(logs[i as int])
                } else {
                    logs.take(i as int).filter(pred)
                });
            }
        }
        assert(logs.take(all.len() as int) =~= logs);
        out
    }

    /// Whether the filters admit a span.
    pub fn span_matches(&self, span: &SpanRef) -> (r: bool)
        ensures
            r == span_admitted(*self, span.entry()),
    {
        let s = span.span();
        self.target.matches(s.metadata.target.as_str()) && self.file.matches(file_or_empty(&s.metadata.file))
            && self.actor.matches(&s.actor) && self.thread.matches(&s.thread_id)
    }
}

/// A log passes the filters exactly when each field passes its own filter: its level is among
/// the chosen levels, its actor among the chosen actors and its thread among the chosen threads
/// (each when any are chosen); its target, file and message contain the respective filter
/// text, ignoring case (each when that text is not empty).
pub proof fn lemma_log_passes_each_filter(f: Filters, l: Log)
    ensures
        log_admitted(f, l) <==> {
            &&& (f.level@.len() == 0 || f.level@.contains(l.metadata.level))
            &&& (f.target@.len() == 0 || is_substring(lowercase(f.target@), lowercase(l.metadata.target@)))
            &&& (f.file@.len() == 0 || is_substring(lowercase(f.file@), lowercase(file_text(l.metadata.file))))
            &&& (f.actor@.len() == 0 || exists|i: int| 0 <= i < f.actor@.len() && (#[trigger] f.actor@[i])@ == l.actor@)
            &&& (f.message@.len() == 0 || is_substring(lowercase(f.message@), lowercase(l.body@)))
            &&& (f.thread@.len() == 0 || f.thread@.contains(l.thread_id))
        },
{
}

/// A span passes the filters exactly when its target and file contain the respective filter
/// text, ignoring case (each when that text is not empty), its actor is among the chosen actors
/// and its thread among the chosen threads (each when any are chosen). Level and message
/// filters do not apply to spans.
pub proof fn lemma_span_passes_each_filter(f: Filters, s: Span)
    ensures
        span_admitted(f, s) <==> {
            &&& (f.target@.len() == 0 || is_substring(lowercase(f.target@), lowercase(s.metadata.target@)))
            &&& (f.file@.len() == 0 || is_substring(lowercase(f.file@), lowercase(file_text(s.metadata.file))))
            &&& (f.actor@.len() == 0 || exists|i: int| 0 <= i < f.actor@.len() && (#[trigger] f.actor@[i])@ == s.actor@)
            &&& (f.thread@.len() == 0 || f.thread@.contains(s.thread_id))
        },
{
}

/// Filtering a list of logs, as [`Filters::filter_logs`] does with the store's logs, keeps
/// only logs that pass each filter on its own field (a log whose target does not contain a
/// set target text is dropped, and so on), and keeps every log that passes them all.
pub proof fn lemma_filtered_logs_pass_each_filter(f: Filters, logs: Seq<Log>)
    ensures
        forall|i: int| 0 <= i < logs.filter(admits_log(f)).len() ==> {
            let l = #[trigger] logs.filter(admits_log(f))[i];
            &&& (f.level@.len() == 0 || f.level@.contains(l.metadata.level))
            &&& (f.target@.len() == 0 || is_substring(lowercase(f.target@), lowercase(l.metadata.target@)))
            &&& (f.file@.len() == 0 || is_substring(lowercase(f.file@), lowercase(file_text(l.metadata.file))))
            &&& (f.actor@.len() == 0 || exists|j: int| 0 <= j < f.actor@.len() && (#[trigger] f.actor@[j])@ == l.actor@)
            &&& (f.message@.len() == 0 || is_substring(lowercase(f.message@), lowercase(l.body@)))
            &&& (f.thread@.len() == 0 || f.thread@.contains(l.thread_id))
        },
        forall|i: int| 0 <= i < logs.len() && {
            let l = #[trigger] logs[i];
            &&& (f.level@.len() == 0 || f.level@.contains(l.metadata.level))
            &&& (f.target@.len() == 0 || is_substring(lowercase(f.target@), lowercase(l.metadata.target@)))
            &&& (f.file@.len() == 0 || is_substring(lowercase(f.file@), lowercase(file_text(l.metadata.file))))
            &&& (f.actor@.len() == 0 || exists|j: int| 0 <= j < f.actor@.len() && (#[trigger] f.actor@[j])@ == l.actor@)
            &&& (f.message@.len() == 0 || is_substring(lowercase(f.message@), lowercase(l.body@)))
            &&& (f.thread@.len() == 0 || f.thread@.contains(l.thread_id))
        } ==> logs.filter(admits_log(f)).contains(logs[i]),
{
    broadcast use vstd::seq_lib::group_filter_ensures;

    assert forall|i: int| 0 <= i < logs.filter(admits_log(f)).len() implies {
        let l = #[trigger] logs.filter(admits_log(f))[i];
        &&& (f.level@.len() == 0 || f.level@.contains(l.metadata.level))
        &&& (f.target@.len() == 0 || is_substring(lowercase(f.target@), lowercase(l.metadata.target@)))
        &&& (f.file@.len() == 0 || is_substring(lowercase(f.file@), lowercase(file_text(l.metadata.file))))
        &&& (f.actor@.len() == 0 || exists|j: int| 0 <= j < f.actor@.len() && (#[trigger] f.actor@[j])@ == l.actor@)
        &&& (f.message@.len() == 0 || is_substring(lowercase(f.message@), lowercase(l.body@)))
        &&& (f.thread@.len() == 0 || f.thread@.contains(l.thread_id))
    } by {
        let l = logs.filter(admits_log(f))[i];
        assert(admits_log(f)(l));
        lemma_log_passes_each_filter(f, l);
    }
    assert forall|i: int| 0 <= i < logs.len() && {
        let l = #[trigger] logs[i];
        &&& (f.level@.len() == 0 || f.level@.contains(l.metadata.level))
        &&& (f.target@.len() == 0 || is_substring(lowercase(f.target@), lowercase(l.metadata.target@)))
        &&& (f.file@.len() == 0 || is_substring(lowercase(f.file@), lowercase(file_text(l.metadata.file))))
        &&& (f.actor@.len() == 0 || exists|j: int| 0 <= j < f.actor@.len() && (#[trigger] f.actor@[j])@ == l.actor@)
        &&& (f.message@.len() == 0 || is_substring(lowercase(f.message@), lowercase(l.body@)))
        &&& (f.thread@.len() == 0 || f.thread@.contains(l.thread_id))
    } implies logs.filter(admits_log(f)).contains(logs[i]) by {
        lemma_log_passes_each_filter(f, logs[i]);
        assert(admits_log(f)(logs[i]));
    }
}

} // verus!
