//! The layout of the timeline: the root spans of each actor are stacked in rows so that the
//! spans of a row do not overlap in time, each row remembering the deepest span tree it holds.

use vstd::prelude::*;
use crate::store::model::{span_of, StoreModel};
use crate::store::{max_i64, min_i64, SpanModel, SpanRef, Timestamp};

verus! {

/// The depth of the span tree under context `c`: one for the span and the deepest of its
/// children's, looking at most `fuel` levels down.
pub open spec fn depth_in(spans: Seq<SpanModel>, c: crate::id::SpanContext, fuel: nat) -> nat
    decreases fuel, 0nat,
{
    if fuel == 0 {
        1
    } else {
        children_depth(spans, span_of(spans, c).children, (fuel - 1) as nat) + 1
    }
}

/// The deepest span tree under the given contexts, zero for none.
pub open spec fn children_depth(spans: Seq<SpanModel>, cs: Seq<crate::id::SpanContext>, fuel: nat) -> nat
    decreases fuel, cs.len() + 1,
{
    if cs.len() == 0 {
        0
    } else {
        let rest = children_depth(spans, cs.drop_last(), fuel);
        let last = depth_in(spans, cs.last(), fuel);
        if rest >= last {
            rest
        } else {
            last
        }
    }
}

/// The depth of a tree is at most one more than the levels looked at.
pub proof fn lemma_depth_bound(spans: Seq<SpanModel>, c: crate::id::SpanContext, fuel: nat)
    ensures
        1 <= depth_in(spans, c, fuel) <= fuel + 1,
    decreases fuel, 0nat,
{
    if fuel > 0 {
        lemma_children_depth_bound(spans, span_of(spans, c).children, (fuel - 1) as nat);
    }
}

/// The deepest of several trees is at most one more than the levels looked at.
pub proof fn lemma_children_depth_bound(spans: Seq<SpanModel>, cs: Seq<crate::id::SpanContext>, fuel: nat)
    ensures
        children_depth(spans, cs, fuel) <= fuel + 1,
    decreases fuel, cs.len() + 1,
{
    if cs.len() > 0 {
        lemma_children_depth_bound(spans, cs.drop_last(), fuel);
        lemma_depth_bound(spans, cs.last(), fuel);
    }
}

/// The depth of the span tree under a span, looking at most `fuel` levels down.
fn depth_with_fuel(span: SpanRef, fuel: usize) -> (r: usize)
    requires
        fuel < usize::MAX,
    ensures
        r == depth_in(span.store_model().spans, span@.context, fuel as nat),
    decreases fuel, 0nat,
{
    proof {
        lemma_depth_bound(span.store_model().spans, span@.context, fuel as nat);
    }
    if fuel == 0 {
        return 1;
    }
    let children = span.children();
    let mut deepest: usize = 0;
    let ghost spans = span.store_model().spans;
    let ghost cs = span@.children;
    for i in 0..children.len()
        invariant
            fuel > 0,
            fuel < usize::MAX,
            children.len() == cs.len(),
            forall|j: int| 0 <= j < children.len() ==> (#[trigger] children[j])@ == span_of(spans, cs[j])
                && children[j].store_model().spans == spans && children[j]@.context == cs[j],
            deepest == children_depth(spans, cs.take(i as int), (fuel - 1) as nat),
    {
        let d = depth_with_fuel(children[i], fuel - 1);
        proof {
            let t = cs.take(i + 1);
            assert(t.drop_last() =~= cs.take(i as int));
            assert(children[i as int]@.context == cs[i as int]);
        }
        if d > deepest {
            deepest = d;
        }
    }
    assert(cs.take(children.len() as int) =~= cs);
    proof {
        lemma_children_depth_bound(spans, cs, (fuel - 1) as nat);
    }
    deepest + 1
}

/// The depth of the span tree under a span: one for the span and the deepest of its
/// children's, looking no deeper than the store has spans (a chain of children longer than
/// that would have to repeat a span).
pub fn span_depth(span: SpanRef) -> (r: usize)
    requires
        span.store_model().spans.len() < usize::MAX,
    ensures
        r == depth_in(span.store_model().spans, span@.context, span.store_model().spans.len()),
{
    depth_with_fuel(span, span.store_span_count())
}


/// A row of the timeline in the model: the deepest span tree it holds and its spans in order.
pub struct RowModel {
    pub max_depth: nat,
    pub spans: Seq<SpanModel>,
}

/// The first row whose last span ends no later than `start`.
pub open spec fn first_fit(rows: Seq<RowModel>, start: i64) -> Option<nat>
    decreases rows.len(),
{
    if rows.len() == 0 {
        None
    } else {
        match first_fit(rows.drop_last(), start) {
            Some(i) => Some(i),
            None => if start >= rows.last().spans.last().end {
                Some((rows.len() - 1) as nat)
            } else {
                None
            },
        }
    }
}

/// The rows after placing span `s`, whose tree is `d` deep: appended to the first row it fits
/// after, or alone in a new row below.
pub open spec fn place(rows: Seq<RowModel>, s: SpanModel, d: nat) -> Seq<RowModel> {
    match first_fit(rows, s.start) {
        Some(i) => rows.update(
            i as int,
            RowModel {
                max_depth: if rows[i as int].max_depth >= d {
                    rows[i as int].max_depth
                } else {
                    d
                },
                spans: rows[i as int].spans.push(s),
            },
        ),
        None => rows.push(RowModel { max_depth: d, spans: seq![s] }),
    }
}

/// The position of actor `a` among the actors.
pub open spec fn actor_pos(actors: Seq<(Seq<char>, Seq<RowModel>)>, a: Seq<char>) -> Option<nat>
    decreases actors.len(),
{
    if actors.len() == 0 {
        None
    } else {
        match actor_pos(actors.drop_last(), a) {
            Some(i) => Some(i),
            None => if actors.last().0 == a {
                Some((actors.len() - 1) as nat)
            } else {
                None
            },
        }
    }
}

/// The actors after placing span `s`, whose tree is `d` deep, in the rows of its actor; a new
/// actor comes last.
pub open spec fn add_span(actors: Seq<(Seq<char>, Seq<RowModel>)>, s: SpanModel, d: nat) -> Seq<(Seq<char>, Seq<RowModel>)> {
    match actor_pos(actors, s.actor) {
        Some(i) => actors.update(i as int, (s.actor, place(actors[i as int].1, s, d))),
        None => actors.push((s.actor, place(Seq::empty(), s, d))),
    }
}

/// The depth of the tree under a root, as [`span_depth`] gives it.
pub open spec fn root_depth<'a>(r: SpanRef<'a>) -> nat {
    depth_in(r.store_model().spans, r@.context, r.store_model().spans.len())
}

/// The layout of the given roots, placed one after the other.
pub open spec fn layout<'a>(roots: Seq<SpanRef<'a>>) -> Seq<(Seq<char>, Seq<RowModel>)>
    decreases roots.len(),
{
    if roots.len() == 0 {
        Seq::empty()
    } else {
        add_span(layout(roots.drop_last()), roots.last()@, root_depth(roots.last()))
    }
}

/// The earliest start of the given roots (the largest timestamp for none).
pub open spec fn earliest_start<'a>(roots: Seq<SpanRef<'a>>) -> i64
    decreases roots.len(),
{
    if roots.len() == 0 {
        i64::MAX
    } else {
        min_i64(earliest_start(roots.drop_last()), roots.last()@.start)
    }
}

/// The latest end of the given roots (the smallest timestamp for none).
pub open spec fn latest_end<'a>(roots: Seq<SpanRef<'a>>) -> i64
    decreases roots.len(),
{
    if roots.len() == 0 {
        i64::MIN
    } else {
        max_i64(latest_end(roots.drop_last()), roots.last()@.end)
    }
}

/// A row of spans of one actor that do not overlap in time.
#[derive(Debug)]
pub struct ActorSpanRow<'a> {
    /// The deepest span tree in the row.
    pub max_depth: usize,
    /// The spans, in the order they were placed.
    pub spans: Vec<SpanRef<'a>>,
}

/// The timeline's data: the time range covered and the rows of each actor, actors in the
/// order they first appear.
#[derive(Debug)]
pub struct SelectedData<'a> {
    /// The earliest start and the latest end (the start again if nothing ends after it).
    pub range: (Timestamp, Timestamp),
    /// Each actor with its rows.
    pub actors: Vec<(String, Vec<ActorSpanRow<'a>>)>,
}

/// The model of a row.
pub open spec fn row_view<'a>(r: ActorSpanRow<'a>) -> RowModel {
    RowModel { max_depth: r.max_depth as nat, spans: r.spans@.map_values(|s: SpanRef<'a>| s@) }
}

/// The model of a list of rows.
pub open spec fn rows_view<'a>(rows: Seq<ActorSpanRow<'a>>) -> Seq<RowModel> {
    rows.map_values(|r: ActorSpanRow<'a>| row_view(r))
}

/// The model of the actors and their rows.
pub open spec fn actors_view<'a>(actors: Seq<(String, Vec<ActorSpanRow<'a>>)>) -> Seq<(Seq<char>, Seq<RowModel>)> {
    actors.map_values(|a: (String, Vec<ActorSpanRow<'a>>)| (a.0@, rows_view(a.1@)))
}

/// Every row holds at least one span.
pub open spec fn rows_filled<'a>(rows: Seq<ActorSpanRow<'a>>) -> bool {
    forall|i: int| 0 <= i < rows.len() ==> (#[trigger] rows[i]).spans.len() > 0
}

/// A row found in a prefix is found at the same place in the whole.
proof fn lemma_first_fit_prefix(rows: Seq<RowModel>, start: i64, k: int)
    requires
        0 <= k <= rows.len(),
        first_fit(rows.take(k), start) is Some,
    ensures
        first_fit(rows, start) == first_fit(rows.take(k), start),
    decreases rows.len() - k,
{
    if k < rows.len() {
        assert(rows.take(k + 1).drop_last() =~= rows.take(k));
        lemma_first_fit_prefix(rows, start, k + 1);
    } else {
        assert(rows.take(k) =~= rows);
    }
}

/// An actor found in a prefix is found at the same place in the whole.
proof fn lemma_actor_pos_prefix(actors: Seq<(Seq<char>, Seq<RowModel>)>, a: Seq<char>, k: int)
    requires
        0 <= k <= actors.len(),
        actor_pos(actors.take(k), a) is Some,
    ensures
        actor_pos(actors, a) == actor_pos(actors.take(k), a),
    decreases actors.len() - k,
{
    if k < actors.len() {
        assert(actors.take(k + 1).drop_last() =~= actors.take(k));
        lemma_actor_pos_prefix(actors, a, k + 1);
    } else {
        assert(actors.take(k) =~= actors);
    }
}

/// Mutable access to an element of a vector.
fn at_mut<T>(v: &mut Vec<T>, i: usize) -> (r: &mut T)
    requires
        i < old(v).len(),
    ensures
        *r == old(v)@[i as int],
        final(v)@ == old(v)@.update(i as int, *final(r)),
{
    &mut v[i]
}

/// Places a span, whose tree is `d` deep, in the first row it fits after, or a new row.
fn place_span<'a>(rows: &mut Vec<ActorSpanRow<'a>>, span: SpanRef<'a>, d: usize)
    requires
        rows_filled(old(rows)@),
    ensures
        rows_filled(final(rows)@),
        rows_view(final(rows)@) == place(rows_view(old(rows)@), span@, d as nat),
{
    let ghost rv = rows_view(rows@);
    let start = span.span().start;
    assert(rv.take(0) =~= Seq::<RowModel>::empty());
    let mut i: usize = 0;
    while i < rows.len()
        invariant
            i <= rows.len(),
            rv == rows_view(rows@),
            rv == rows_view(old(rows)@),
            rv.len() == rows.len(),
            rows_filled(rows@),
            start@ == span@.start,
            first_fit(rv.take(i as int), span@.start) is None,
        decreases rows.len() - i,
    {
        let n = rows[i].spans.len();
        assert(rows[i as int].spans.len() > 0);
        let last_end = rows[i].spans[n - 1].span().end;
        proof {
            assert(rv[i as int] == row_view(rows@[i as int]));
            assert(rv[i as int].spans.last() == rows@[i as int].spans@[n - 1]@);
            assert(rv.take(i + 1).drop_last() =~= rv.take(i as int));
        }
        if start.as_ns() >= last_end.as_ns() {
            proof {
                lemma_first_fit_prefix(rv, span@.start, i + 1);
            }
            let ghost old_rows = rows@;
            let row = at_mut(rows, i);
            if d > row.max_depth {
                row.max_depth = d;
            }
            row.spans.push(span);
            proof {
                let nr = rows@[i as int];
                assert(nr.spans@.map_values(|s: SpanRef<'a>| s@) =~= old_rows[i as int].spans@.map_values(
                    |s: SpanRef<'a>| s@,
                ).push(span@));
                assert(rows_view(rows@) =~= place(rv, span@, d as nat));
            }
            return;
        }
        i = i + 1;
    }
    assert(rv.take(i as int) =~= rv);
    let mut spans: Vec<SpanRef<'a>> = Vec::new();
    spans.push(span);
    rows.push(ActorSpanRow { max_depth: d, spans });
    proof {
        assert(rows@.last().spans@.map_values(|s: SpanRef<'a>| s@) =~= seq![span@]);
        assert(rows_view(rows@) =~= place(rv, span@, d as nat));
    }
}

/// The position of an actor among the actors, if it is there.
fn find_actor<'a>(actors: &Vec<(String, Vec<ActorSpanRow<'a>>)>, actor: &String) -> (r: Option<usize>)
    ensures
        match r {
            Some(i) => actor_pos(actors_view(actors@), actor@) == Some(i as nat) && i < actors.len()
                && actors@[i as int].0@ == actor@,
            None => actor_pos(actors_view(actors@), actor@) is None,
        },
{
    let ghost av = actors_view(actors@);
    assert(av.take(0) =~= Seq::<(Seq<char>, Seq<RowModel>)>::empty());
    let mut i: usize = 0;
    while i < actors.len()
        invariant
            i <= actors.len(),
            av == actors_view(actors@),
            av.len() == actors.len(),
            actor_pos(av.take(i as int), actor@) is None,
        decreases actors.len() - i,
    {
        assert(av[i as int].0 == actors@[i as int].0@);
        assert(av.take(i + 1).drop_last() =~= av.take(i as int));
        if actors[i].0 == *actor {
            proof {
                lemma_actor_pos_prefix(av, actor@, i + 1);
            }
            return Some(i);
        }
        i = i + 1;
    }
    assert(av.take(i as int) =~= av);
    None
}

/// Lays the given root spans out on the timeline, in order: each goes into the first row of
/// its actor whose last span ends no later than it starts, or a new row; each row keeps the
/// deepest span tree it holds. The range runs from the earliest start to the latest end, or
/// is the single start if nothing ends after it.
pub fn convert<'a>(roots: &Vec<SpanRef<'a>>) -> (r: SelectedData<'a>)
    requires
        forall|i: int| 0 <= i < roots.len() ==> (#[trigger] roots[i]).store_model().spans.len() < usize::MAX,
    ensures
        actors_view(r.actors@) == layout(roots@),
        r.range.0@ == earliest_start(roots@),
        r.range.1@ == (if earliest_start(roots@) > latest_end(roots@) {
            earliest_start(roots@)
        } else {
            latest_end(roots@)
        }),
{
    let mut actors: Vec<(String, Vec<ActorSpanRow<'a>>)> = Vec::new();
    let mut start = Timestamp::max_value();
    let mut end = Timestamp::min_value();
    assert(roots@.take(0) =~= Seq::<SpanRef<'a>>::empty());
    assert(actors_view(actors@) =~= Seq::<(Seq<char>, Seq<RowModel>)>::empty());
    for k in 0..roots.len()
        invariant
            forall|i: int| 0 <= i < roots.len() ==> (#[trigger] roots[i]).store_model().spans.len() < usize::MAX,
            actors_view(actors@) == layout(roots@.take(k as int)),
            forall|a: int| 0 <= a < actors.len() ==> rows_filled((#[trigger] actors@[a]).1@),
            start@ == earliest_start(roots@.take(k as int)),
            end@ == latest_end(roots@.take(k as int)),
    {
        let span = roots[k];
        proof {
            let t = roots@.take(k + 1);
            assert(t.drop_last() =~= roots@.take(k as int));
            assert(t.last() == span);
        }
        let s = span.span();
        start = start.min(s.start);
        end = end.max(s.end);
        let d = span_depth(span);
        let ghost before = actors@;
        let ghost av = actors_view(actors@);
        match find_actor(&actors, &s.actor) {
            Some(a) => {
                let entry = at_mut(&mut actors, a);
                assert(av[a as int].1 == rows_view(entry.1@));
                assert(entry.0@ == span@.actor);
                place_span(&mut entry.1, span, d);
                proof {
                    assert(actors@[a as int].0@ == span@.actor);
                    assert(actors_view(actors@) =~= add_span(av, span@, d as nat));
                }
            },
            None => {
                let mut rows: Vec<ActorSpanRow<'a>> = Vec::new();
                assert(rows_view(rows@) =~= Seq::<RowModel>::empty());
                place_span(&mut rows, span, d);
                let name = s.actor.clone();
                assert(name@ == span@.actor);
                assert(actor_pos(av, span@.actor) is None);
                let ghost rv = rows_view(rows@);
                assert(rv == place(Seq::empty(), span@, d as nat));
                actors.push((name, rows));
                proof {
                    assert(actors@ == before.push((name, rows)));
                    assert(actors_view(actors@) =~= av.push((name@, rv)));
                    assert(actors_view(actors@) =~= add_span(av, span@, d as nat));
                }
            },
        }
    }
    assert(roots@.take(roots.len() as int) =~= roots@);
    if start.as_ns() > end.as_ns() {
        end = start;
    }
    SelectedData { range: (start, end), actors }
}


/// The spans of a row follow each other in time: each starts no earlier than the one before
/// it ends.
pub open spec fn row_ordered(r: RowModel) -> bool {
    &&& r.spans.len() > 0
    &&& forall|j: int, k: int|
        0 <= j && k == j + 1 && k < r.spans.len() ==> (#[trigger] r.spans[j]).end <= (
        #[trigger] r.spans[k]).start
}

/// Every row of every actor is ordered.
pub open spec fn layout_ordered(actors: Seq<(Seq<char>, Seq<RowModel>)>) -> bool {
    forall|a: int, r: int|
        0 <= a < actors.len() && 0 <= r < actors[a].1.len() ==> row_ordered(#[trigger] actors[a].1[r])
}

/// The row a span fits in is one whose last span ends no later than the span starts.
proof fn lemma_first_fit_fits(rows: Seq<RowModel>, start: i64)
    ensures
        first_fit(rows, start) matches Some(i) ==> i < rows.len() && start >= rows[i as int].spans.last().end,
    decreases rows.len(),
{
    if rows.len() > 0 {
        lemma_first_fit_fits(rows.drop_last(), start);
    }
}

/// The position of a present actor is within the actors.
proof fn lemma_actor_pos_in(actors: Seq<(Seq<char>, Seq<RowModel>)>, a: Seq<char>)
    ensures
        actor_pos(actors, a) matches Some(i) ==> i < actors.len(),
    decreases actors.len(),
{
    if actors.len() > 0 {
        lemma_actor_pos_in(actors.drop_last(), a);
    }
}

/// Placing a span keeps every row ordered.
proof fn lemma_place_ordered(rows: Seq<RowModel>, s: SpanModel, d: nat)
    requires
        forall|r: int| 0 <= r < rows.len() ==> row_ordered(#[trigger] rows[r]),
    ensures
        forall|r: int| 0 <= r < place(rows, s, d).len() ==> row_ordered(#[trigger] place(rows, s, d)[r]),
{
    lemma_first_fit_fits(rows, s.start);
    let p = place(rows, s, d);
    match first_fit(rows, s.start) {
        Some(i) => {
            let old_row = rows[i as int];
            assert(row_ordered(old_row));
            let new_spans = old_row.spans.push(s);
            assert forall|j: int, k: int|
                0 <= j && k == j + 1 && k < new_spans.len() implies (#[trigger] new_spans[j]).end <= (
                #[trigger] new_spans[k]).start by {
                if k < old_row.spans.len() {
                    assert(new_spans[j] == old_row.spans[j]);
                    assert(new_spans[k] == old_row.spans[k]);
                }
            }
            assert forall|r: int| 0 <= r < p.len() implies row_ordered(#[trigger] p[r]) by {
                if r != i {
                    assert(p[r] == rows[r]);
                }
            }
        },
        None => {
            assert forall|r: int| 0 <= r < p.len() implies row_ordered(#[trigger] p[r]) by {
                if r < rows.len() {
                    assert(p[r] == rows[r]);
                }
            }
        },
    }
}

/// In a timeline layout, the spans of each row follow each other in time without overlap.
pub proof fn lemma_rows_do_not_overlap<'a>(roots: Seq<SpanRef<'a>>)
    ensures
        layout_ordered(layout(roots)),
    decreases roots.len(),
{
    if roots.len() > 0 {
        let prev = layout(roots.drop_last());
        lemma_rows_do_not_overlap(roots.drop_last());
        let s = roots.last()@;
        let d = root_depth(roots.last());
        let next = add_span(prev, s, d);
        lemma_actor_pos_in(prev, s.actor);
        match actor_pos(prev, s.actor) {
            Some(i) => {
                let rows = prev[i as int].1;
                assert forall|r: int| 0 <= r < rows.len() implies row_ordered(#[trigger] rows[r]) by {
                    assert(row_ordered(prev[i as int].1[r]));
                }
                lemma_place_ordered(rows, s, d);
                assert forall|a: int, r: int|
                    0 <= a < next.len() && 0 <= r < next[a].1.len() implies row_ordered(
                    #[trigger] next[a].1[r],
                ) by {
                    if a != i {
                        assert(next[a] == prev[a]);
                    }
                }
            },
            None => {
                lemma_place_ordered(Seq::empty(), s, d);
                assert forall|a: int, r: int|
                    0 <= a < next.len() && 0 <= r < next[a].1.len() implies row_ordered(
                    #[trigger] next[a].1[r],
                ) by {
                    if a < prev.len() {
                        assert(next[a] == prev[a]);
                    }
                }
            },
        }
    }
}


/// The logs of the span with context `c`, in order, followed by the logs under each child in
/// turn, looking at most `fuel` levels down.
pub open spec fn logs_under(m: StoreModel, c: crate::id::SpanContext, fuel: nat) -> Seq<crate::store::LogModel>
    decreases fuel, 0nat,
{
    own_logs(m, span_of(m.spans, c).logs) + if fuel == 0 {
        Seq::empty()
    } else {
        children_logs(m, span_of(m.spans, c).children, (fuel - 1) as nat)
    }
}

/// The logs under each of the given contexts in turn.
pub open spec fn children_logs(m: StoreModel, cs: Seq<crate::id::SpanContext>, fuel: nat) -> Seq<crate::store::LogModel>
    decreases fuel, cs.len() + 1,
{
    if cs.len() == 0 {
        Seq::empty()
    } else {
        children_logs(m, cs.drop_last(), fuel) + logs_under(m, cs.last(), fuel)
    }
}

/// The logs with the given ids.
pub open spec fn own_logs(m: StoreModel, ids: Seq<crate::store::LogId>) -> Seq<crate::store::LogModel> {
    ids.map_values(|id: crate::store::LogId| m.logs[id@ as int])
}

/// The logs of a span, and with `recursive` those of all spans under it, looking at most
/// `fuel` levels down.
fn logs_with_fuel<'a>(span: SpanRef<'a>, recursive: bool, fuel: usize, out: &mut Vec<crate::store::LogRef<'a>>)
    ensures
        final(out)@.map_values(|l: crate::store::LogRef<'a>| l@) == old(out)@.map_values(
            |l: crate::store::LogRef<'a>| l@,
        ) + if recursive {
            logs_under(span.store_model(), span@.context, fuel as nat)
        } else {
            own_logs(span.store_model(), span@.logs)
        },
    decreases fuel, 0nat,
{
    let ghost m = span.store_model();
    let ghost start = out@.map_values(|l: crate::store::LogRef<'a>| l@);
    let logs = span.logs();
    let children = span.children();
    for i in 0..logs.len()
        invariant
            logs.len() == span@.logs.len(),
            forall|j: int| 0 <= j < logs.len() ==> (#[trigger] logs[j])@ == m.logs[span@.logs[j]@ as int],
            out@.map_values(|l: crate::store::LogRef<'a>| l@) == start + own_logs(m, span@.logs.take(i as int)),
    {
        let ghost before = out@;
        out.push(logs[i]);
        assert(out@.map_values(|l: crate::store::LogRef<'a>| l@) =~= before.map_values(
            |l: crate::store::LogRef<'a>| l@,
        ).push(logs[i as int]@));
        assert(own_logs(m, span@.logs.take(i + 1)) =~= own_logs(m, span@.logs.take(i as int)).push(logs[i as int]@));
        assert(out@.map_values(|l: crate::store::LogRef<'a>| l@) =~= start + own_logs(m, span@.logs.take(i + 1)));
    }
    assert(span@.logs.take(logs.len() as int) =~= span@.logs);
    if !recursive {
        return;
    }
    let ghost mid = out@.map_values(|l: crate::store::LogRef<'a>| l@);
    if fuel == 0 {
        assert(logs_under(m, span@.context, 0) =~= own_logs(m, span@.logs));
        assert(out@.map_values(|l: crate::store::LogRef<'a>| l@) =~= start + own_logs(m, span@.logs) + Seq::empty());
        return;
    }
    let ghost cs = span@.children;
    for i in 0..children.len()
        invariant
            fuel > 0,
            children.len() == cs.len(),
            forall|j: int| 0 <= j < children.len() ==> (#[trigger] children[j])@.context == cs[j]
                && children[j].store_model() == m,
            out@.map_values(|l: crate::store::LogRef<'a>| l@) == mid + children_logs(m, cs.take(i as int), (fuel - 1) as nat),
    {
        let ghost before = out@.map_values(|l: crate::store::LogRef<'a>| l@);
        logs_with_fuel(children[i], true, fuel - 1, out);
        proof {
            let t = cs.take(i + 1);
            assert(t.drop_last() =~= cs.take(i as int));
            assert(out@.map_values(|l: crate::store::LogRef<'a>| l@) =~= mid + children_logs(m, cs.take(i + 1), (fuel - 1) as nat));
        }
    }
    assert(cs.take(children.len() as int) =~= cs);
    assert(span@ == span_of(m.spans, span@.context));
    assert(out@.map_values(|l: crate::store::LogRef<'a>| l@) =~= start + logs_under(m, span@.context, fuel as nat));
}

/// The logs of a span in order, and with `recursive` after them those under each of its
/// children in turn (looking no deeper than the store has spans).
pub fn span_logs<'a>(span: SpanRef<'a>, recursive: bool) -> (r: Vec<crate::store::LogRef<'a>>)
    ensures
        r@.map_values(|l: crate::store::LogRef<'a>| l@) == if recursive {
            logs_under(span.store_model(), span@.context, span.store_model().spans.len())
        } else {
            own_logs(span.store_model(), span@.logs)
        },
{
    let mut out: Vec<crate::store::LogRef<'a>> = Vec::new();
    assert(out@.map_values(|l: crate::store::LogRef<'a>| l@) =~= Seq::<crate::store::LogModel>::empty());
    let n = span.store_span_count();
    logs_with_fuel(span, recursive, n, &mut out);
    assert(out@.map_values(|l: crate::store::LogRef<'a>| l@) =~= if recursive {
        logs_under(span.store_model(), span@.context, span.store_model().spans.len())
    } else {
        own_logs(span.store_model(), span@.logs)
    });
    out
}

/// The deepest of several span trees is at least as deep as each of them, is the depth of one
/// of them, and is zero for none.
pub proof fn lemma_children_depth_is_deepest(spans: Seq<SpanModel>, cs: Seq<crate::id::SpanContext>, fuel: nat)
    ensures
        forall|k: int| 0 <= k < cs.len() ==> children_depth(spans, cs, fuel) >= #[trigger] depth_in(spans, cs[k], fuel),
        cs.len() == 0 ==> children_depth(spans, cs, fuel) == 0,
        cs.len() > 0 ==> exists|k: int| 0 <= k < cs.len() && children_depth(spans, cs, fuel) == #[trigger] depth_in(spans, cs[k], fuel),
    decreases cs.len(),
{
    if cs.len() > 0 {
        let init = cs.drop_last();
        lemma_children_depth_is_deepest(spans, init, fuel);
        assert forall|k: int| 0 <= k < cs.len() implies children_depth(spans, cs, fuel) >= #[trigger] depth_in(spans, cs[k], fuel) by {
            if k < cs.len() - 1 {
                assert(cs[k] == init[k]);
            }
        }
        if children_depth(spans, cs, fuel) == depth_in(spans, cs.last(), fuel) {
            assert(depth_in(spans, cs[cs.len() - 1], fuel) == depth_in(spans, cs.last(), fuel));
        } else {
            let k = choose|k: int| 0 <= k < init.len() && children_depth(spans, init, fuel) == #[trigger] depth_in(spans, init[k], fuel);
            assert(cs[k] == init[k]);
        }
    }
}

/// A span tree is one level deeper than its deepest child: its depth exceeds the depth of
/// each child by at least one, exceeds the depth of some child by exactly one, and is one for
/// a span without children.
pub proof fn lemma_depth_is_one_more_than_deepest_child(spans: Seq<SpanModel>, c: crate::id::SpanContext, fuel: nat)
    requires
        fuel > 0,
    ensures
        forall|k: int| 0 <= k < span_of(spans, c).children.len() ==> depth_in(spans, c, fuel) >= #[trigger] depth_in(
            spans,
            span_of(spans, c).children[k],
            (fuel - 1) as nat,
        ) + 1,
        span_of(spans, c).children.len() == 0 ==> depth_in(spans, c, fuel) == 1,
        span_of(spans, c).children.len() > 0 ==> exists|k: int|
            0 <= k < span_of(spans, c).children.len() && depth_in(spans, c, fuel) == #[trigger] depth_in(
                spans,
                span_of(spans, c).children[k],
                (fuel - 1) as nat,
            ) + 1,
{
    lemma_children_depth_is_deepest(spans, span_of(spans, c).children, (fuel - 1) as nat);
}

/// Every row holds a span, its depth is at least the tree depth `dep` of each span it holds,
/// and it is the depth of one of them: the deepest tree in the row.
pub open spec fn rows_as_deep_as_their_spans(rows: Seq<RowModel>, dep: spec_fn(SpanModel) -> nat) -> bool {
    forall|r: int| 0 <= r < rows.len() ==> {
        &&& (#[trigger] rows[r]).spans.len() > 0
        &&& forall|j: int| 0 <= j < rows[r].spans.len() ==> rows[r].max_depth >= dep(#[trigger] rows[r].spans[j])
        &&& exists|j: int| 0 <= j < rows[r].spans.len() && rows[r].max_depth == dep(#[trigger] rows[r].spans[j])
    }
}

/// Placing a span whose tree depth is `dep(s)` keeps every row exactly as deep as the deepest
/// tree it holds: the row that takes the span becomes at least as deep as it, without losing
/// the depth of the spans it already held.
pub proof fn lemma_place_keeps_row_depths(rows: Seq<RowModel>, s: SpanModel, dep: spec_fn(SpanModel) -> nat)
    requires
        rows_as_deep_as_their_spans(rows, dep),
    ensures
        rows_as_deep_as_their_spans(place(rows, s, dep(s)), dep),
{
    lemma_first_fit_fits(rows, s.start);
    let d = dep(s);
    let p = place(rows, s, d);
    match first_fit(rows, s.start) {
        Some(i) => {
            let old_row = rows[i as int];
            let new_row = p[i as int];
            assert(new_row.spans == old_row.spans.push(s));
            assert forall|r: int| 0 <= r < p.len() implies {
                &&& (#[trigger] p[r]).spans.len() > 0
                &&& forall|j: int| 0 <= j < p[r].spans.len() ==> p[r].max_depth >= dep(#[trigger] p[r].spans[j])
                &&& exists|j: int| 0 <= j < p[r].spans.len() && p[r].max_depth == dep(#[trigger] p[r].spans[j])
            } by {
                if r != i {
                    assert(p[r] == rows[r]);
                } else {
                    assert forall|j: int| 0 <= j < p[r].spans.len() implies p[r].max_depth >= dep(#[trigger] p[r].spans[j]) by {
                        if j < old_row.spans.len() {
                            assert(p[r].spans[j] == old_row.spans[j]);
                        } else {
                            assert(p[r].spans[j] == s);
                        }
                    }
                    if old_row.max_depth >= d {
                        let j = choose|j: int| 0 <= j < old_row.spans.len() && old_row.max_depth == dep(#[trigger] old_row.spans[j]);
                        assert(p[r].spans[j] == old_row.spans[j]);
                    } else {
                        let j = old_row.spans.len() as int;
                        assert(p[r].spans[j] == s);
                    }
                }
            }
        },
        None => {
            assert forall|r: int| 0 <= r < p.len() implies {
                &&& (#[trigger] p[r]).spans.len() > 0
                &&& forall|j: int| 0 <= j < p[r].spans.len() ==> p[r].max_depth >= dep(#[trigger] p[r].spans[j])
                &&& exists|j: int| 0 <= j < p[r].spans.len() && p[r].max_depth == dep(#[trigger] p[r].spans[j])
            } by {
                if r < rows.len() {
                    assert(p[r] == rows[r]);
                } else {
                    assert(p[r].spans == seq![s]);
                    assert(p[r].spans[0] == s);
                }
            }
        },
    }
}

/// The tree depth of a span in the store model `m`, as [`span_depth`] computes it.
pub open spec fn depth_in_store(m: StoreModel) -> spec_fn(SpanModel) -> nat {
    |s: SpanModel| depth_in(m.spans, s.context, m.spans.len())
}

/// In the timeline layout of roots of one store, every row of every actor is exactly as deep
/// as the deepest span tree placed in it (the row height the timeline draws).
pub proof fn lemma_layout_rows_as_deep_as_their_spans<'a>(roots: Seq<SpanRef<'a>>, m: StoreModel)
    requires
        forall|i: int| 0 <= i < roots.len() ==> (#[trigger] roots[i]).store_model() == m,
    ensures
        forall|a: int| 0 <= a < layout(roots).len() ==> rows_as_deep_as_their_spans(
            (#[trigger] layout(roots)[a]).1,
            depth_in_store(m),
        ),
    decreases roots.len(),
{
    if roots.len() > 0 {
        let init = roots.drop_last();
        assert forall|i: int| 0 <= i < init.len() implies (#[trigger] init[i]).store_model() == m by {
            assert(init[i] == roots[i]);
        }
        lemma_layout_rows_as_deep_as_their_spans(init, m);
        let prev = layout(init);
        let last = roots.last();
        assert(last == roots[roots.len() - 1]);
        let s = last@;
        let dep = depth_in_store(m);
        assert(root_depth(last) == dep(s));
        let next = add_span(prev, s, dep(s));
        assert(layout(roots) == next);
        lemma_actor_pos_in(prev, s.actor);
        match actor_pos(prev, s.actor) {
            Some(i) => {
                lemma_place_keeps_row_depths(prev[i as int].1, s, dep);
                assert forall|a: int| 0 <= a < next.len() implies rows_as_deep_as_their_spans(
                    (#[trigger] next[a]).1,
                    dep,
                ) by {
                    if a != i {
                        assert(next[a] == prev[a]);
                    }
                }
            },
            None => {
                lemma_place_keeps_row_depths(Seq::empty(), s, dep);
                assert forall|a: int| 0 <= a < next.len() implies rows_as_deep_as_their_spans(
                    (#[trigger] next[a]).1,
                    dep,
                ) by {
                    if a < prev.len() {
                        assert(next[a] == prev[a]);
                    }
                }
            },
        }
    }
}

} // verus!
