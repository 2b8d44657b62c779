//! Runtime telemetry: timed operations, the most recent of which are kept
//! in memory and summarized per operation.
//!
//! Appending events to the log file, the clock and the lock around the
//! retained events belong to the caller.
use std::collections::BTreeMap;
use std::collections::VecDeque;
use vstd::prelude::*;
use crate::string_map::{StringMap, map_of, distinct_keys, key_at, lemma_map_of};
use crate::text::{chars_of, lemma_seq_order, lemma_seq_lt_irreflexive, lemma_seq_lt_total, owned, push_str, seq_lt, str_eq, str_lt, string_from_range};
use crate::thread_model::opt_view;

verus! {

/// How many events are kept in memory.
pub const DEFAULT_RECENT_EVENT_LIMIT: usize = 500;

/// An operation that takes at least this long is slow.
pub const DEFAULT_SLOW_EVENT_THRESHOLD_MS: u64 = 50;

/// Longer error texts are cut to this many characters.
pub const ERROR_TEXT_LIMIT: usize = 240;

/// The status that marks a failed operation.
pub const ERROR_STATUS: &'static str = "error";

/// One timed operation.
#[derive(Debug, Clone)]
pub struct RuntimeTelemetryEvent {
    pub recorded_at: String,
    pub operation: String,
    pub status: String,
    pub elapsed_ms: u64,
    pub slow: bool,
    pub fields: BTreeMap<String, String>,
    pub metrics: BTreeMap<String, u64>,
    pub error: Option<String>,
}

/// The figures of one operation over a set of events.
#[derive(Debug, Clone)]
pub struct RuntimeTelemetrySummaryItem {
    pub operation: String,
    pub count: usize,
    pub slow_count: usize,
    pub error_count: usize,
    pub total_elapsed_ms: u64,
    pub average_elapsed_ms: u64,
    pub max_elapsed_ms: u64,
    pub last_elapsed_ms: u64,
}

/// The latest retained events and their summary.
#[derive(Debug, Clone)]
pub struct RuntimeTelemetrySnapshot {
    pub path: String,
    pub retained_event_count: usize,
    pub returned_event_count: usize,
    pub slow_event_threshold_ms: u64,
    pub events: Vec<RuntimeTelemetryEvent>,
    pub summary: Vec<RuntimeTelemetrySummaryItem>,
}

/// The error text as kept: at most `ERROR_TEXT_LIMIT` characters, with
/// `...` after a text that was cut.
pub open spec fn truncated_error(s: Seq<char>) -> Seq<char> {
    if s.len() <= ERROR_TEXT_LIMIT {
        s
    } else {
        s.take(ERROR_TEXT_LIMIT as int) + "..."@
    }
}

/// An event counts as failed when it carries an error or its status is
/// `error`.
pub open spec fn is_failed(e: RuntimeTelemetryEvent) -> bool {
    e.error is Some || e.status@ == ERROR_STATUS@
}

/// Some event is of operation `op`.
pub open spec fn has_op(es: Seq<RuntimeTelemetryEvent>, op: Seq<char>) -> bool {
    exists|i: int| 0 <= i < es.len() && #[trigger] es[i].operation@ == op
}

/// The number of events of operation `op`.
pub open spec fn op_count(es: Seq<RuntimeTelemetryEvent>, op: Seq<char>) -> nat
    decreases es.len(),
{
    if es.len() == 0 {
        0
    } else {
        op_count(es.drop_last(), op) + if es.last().operation@ == op {
            1nat
        } else {
            0nat
        }
    }
}

/// The number of slow events of operation `op`.
pub open spec fn op_slow_count(es: Seq<RuntimeTelemetryEvent>, op: Seq<char>) -> nat
    decreases es.len(),
{
    if es.len() == 0 {
        0
    } else {
        op_slow_count(es.drop_last(), op) + if es.last().operation@ == op && es.last().slow {
            1nat
        } else {
            0nat
        }
    }
}

/// The number of failed events of operation `op`.
pub open spec fn op_error_count(es: Seq<RuntimeTelemetryEvent>, op: Seq<char>) -> nat
    decreases es.len(),
{
    if es.len() == 0 {
        0
    } else {
        op_error_count(es.drop_last(), op) + if es.last().operation@ == op && is_failed(es.last()) {
            1nat
        } else {
            0nat
        }
    }
}

/// The time spent in operation `op`, summed over its events.
pub open spec fn op_elapsed_sum(es: Seq<RuntimeTelemetryEvent>, op: Seq<char>) -> nat
    decreases es.len(),
{
    if es.len() == 0 {
        0
    } else {
        op_elapsed_sum(es.drop_last(), op) + if es.last().operation@ == op {
            es.last().elapsed_ms as nat
        } else {
            0nat
        }
    }
}

/// The longest time of an event of operation `op` (0 when there is none).
pub open spec fn op_max(es: Seq<RuntimeTelemetryEvent>, op: Seq<char>) -> nat
    decreases es.len(),
{
    if es.len() == 0 {
        0
    } else if es.last().operation@ == op && es.last().elapsed_ms > op_max(es.drop_last(), op) {
        es.last().elapsed_ms as nat
    } else {
        op_max(es.drop_last(), op)
    }
}

/// The time of the last event of operation `op` (0 when there is none).
pub open spec fn op_last(es: Seq<RuntimeTelemetryEvent>, op: Seq<char>) -> nat
    decreases es.len(),
{
    if es.len() == 0 {
        0
    } else if es.last().operation@ == op {
        es.last().elapsed_ms as nat
    } else {
        op_last(es.drop_last(), op)
    }
}

/// The summed time, held at `u64::MAX` once it would pass it.
pub open spec fn op_total(es: Seq<RuntimeTelemetryEvent>, op: Seq<char>) -> nat {
    if op_elapsed_sum(es, op) > u64::MAX {
        u64::MAX as nat
    } else {
        op_elapsed_sum(es, op)
    }
}

/// `item` gives the figures of its operation over the events.
pub open spec fn describes(item: RuntimeTelemetrySummaryItem, es: Seq<RuntimeTelemetryEvent>) -> bool {
    let op = item.operation@;
    &&& item.count == op_count(es, op)
    &&& item.slow_count == op_slow_count(es, op)
    &&& item.error_count == op_error_count(es, op)
    &&& item.total_elapsed_ms == op_total(es, op)
    &&& item.average_elapsed_ms == op_total(es, op) / op_count(es, op)
    &&& item.max_elapsed_ms == op_max(es, op)
    &&& item.last_elapsed_ms == op_last(es, op)
}

/// Summary order: most total time first, then longest single event, then
/// operation name.
pub open spec fn ranks_before(a: RuntimeTelemetrySummaryItem, b: RuntimeTelemetrySummaryItem) -> bool {
    ||| a.total_elapsed_ms > b.total_elapsed_ms
    ||| a.total_elapsed_ms == b.total_elapsed_ms && a.max_elapsed_ms > b.max_elapsed_ms
    ||| a.total_elapsed_ms == b.total_elapsed_ms && a.max_elapsed_ms == b.max_elapsed_ms && seq_lt(
        a.operation@,
        b.operation@,
    )
}

/// The items are in summary order.
pub open spec fn in_summary_order(r: Seq<RuntimeTelemetrySummaryItem>) -> bool {
    forall|a: int, b: int| #![trigger r[a], r[b]] 0 <= a < b < r.len() ==> ranks_before(r[a], r[b])
}

/// `r` is the summary of the events: one item for each operation that
/// occurs, giving its figures, in summary order.
pub open spec fn is_summary(r: Seq<RuntimeTelemetrySummaryItem>, es: Seq<RuntimeTelemetryEvent>) -> bool {
    &&& forall|a: int|
        0 <= a < r.len() ==> has_op(es, #[trigger] r[a].operation@) && describes(r[a], es)
    &&& forall|op: Seq<char>|
        #[trigger] has_op(es, op) ==> exists|a: int| 0 <= a < r.len() && #[trigger] r[a].operation@ == op
    &&& in_summary_order(r)
}

/// Two events are the same: one is a copy of the other.
pub open spec fn same_event(a: RuntimeTelemetryEvent, b: RuntimeTelemetryEvent) -> bool {
    &&& a.recorded_at == b.recorded_at
    &&& a.operation == b.operation
    &&& a.status == b.status
    &&& a.elapsed_ms == b.elapsed_ms
    &&& a.slow == b.slow
    &&& a.fields@ == b.fields@
    &&& a.metrics@ == b.metrics@
    &&& a.error == b.error
}

/// The events that stay after `event` is recorded: the oldest one makes
/// room when `limit` are already kept.
pub open spec fn retained_after(kept: Seq<RuntimeTelemetryEvent>, event: RuntimeTelemetryEvent, limit: nat) -> Seq<RuntimeTelemetryEvent> {
    if kept.len() >= limit && kept.len() > 0 {
        kept.drop_first().push(event)
    } else {
        kept.push(event)
    }
}

/// How many of the latest events a snapshot asked for `limit` returns: at
/// least one, at most `recent_limit`, and no more than are kept.
pub open spec fn returned_count(limit: nat, recent_limit: nat, kept: nat) -> nat {
    let clamped = if limit < 1 {
        1
    } else if limit > recent_limit {
        recent_limit
    } else {
        limit
    };
    if clamped < kept {
        clamped
    } else {
        kept
    }
}

/// An error text cut to `ERROR_TEXT_LIMIT` characters.
pub fn truncate_error(value: &str) -> (r: String)
    ensures
        r@ == truncated_error(value@),
{
    let v = chars_of(value);
    if v.len() <= ERROR_TEXT_LIMIT {
        return owned(value);
    }
    let mut r = string_from_range(&v, 0, ERROR_TEXT_LIMIT);
    push_str(&mut r, "...");
    r
}

/// Whether an event counts as failed.
pub fn event_failed(e: &RuntimeTelemetryEvent) -> (b: bool)
    ensures
        b == is_failed(*e),
{
    e.error.is_some() || str_eq(e.status.as_str(), ERROR_STATUS)
}

impl RuntimeTelemetryEvent {
    /// A copy of the event.
    pub fn duplicate(&self) -> (r: Self)
        ensures
            same_event(r, *self),
    {
        RuntimeTelemetryEvent {
            recorded_at: self.recorded_at.clone(),
            operation: self.operation.clone(),
            status: self.status.clone(),
            elapsed_ms: self.elapsed_ms,
            slow: self.slow,
            fields: self.fields.clone(),
            metrics: self.metrics.clone(),
            error: match &self.error {
                Some(e) => Some(e.clone()),
                None => None,
            },
        }
    }
}

/// The running figures of one operation.
#[derive(Clone, Copy)]
struct Accumulator {
    count: usize,
    slow_count: usize,
    error_count: usize,
    total_elapsed_ms: u64,
    max_elapsed_ms: u64,
    last_elapsed_ms: u64,
}

/// `acc` holds the figures of operation `op` over the events.
spec fn accumulates(acc: Accumulator, es: Seq<RuntimeTelemetryEvent>, op: Seq<char>) -> bool {
    &&& acc.count == op_count(es, op)
    &&& acc.slow_count == op_slow_count(es, op)
    &&& acc.error_count == op_error_count(es, op)
    &&& acc.total_elapsed_ms == op_total(es, op)
    &&& acc.max_elapsed_ms == op_max(es, op)
    &&& acc.last_elapsed_ms == op_last(es, op)
}

/// An operation that does not occur has no figures; one that does is
/// counted at least once; counts never pass the number of events.
proof fn lemma_op_figures(es: Seq<RuntimeTelemetryEvent>, op: Seq<char>)
    ensures
        !has_op(es, op) ==> op_count(es, op) == 0 && op_slow_count(es, op) == 0 && op_error_count(
            es,
            op,
        ) == 0 && op_elapsed_sum(es, op) == 0 && op_max(es, op) == 0 && op_last(es, op) == 0,
        has_op(es, op) ==> op_count(es, op) >= 1,
        op_count(es, op) <= es.len(),
        op_slow_count(es, op) <= op_count(es, op),
        op_error_count(es, op) <= op_count(es, op),
    decreases es.len(),
{
    if es.len() > 0 {
        let init = es.drop_last();
        lemma_op_figures(init, op);
        if has_op(es, op) && es.last().operation@ != op {
            let i = choose|i: int| 0 <= i < es.len() && #[trigger] es[i].operation@ == op;
            assert(i < es.len() - 1);
            assert(init[i].operation@ == op);
        }
        if !has_op(es, op) {
            assert(es[es.len() - 1].operation@ != op);
            assert forall|i: int| 0 <= i < init.len() implies #[trigger] init[i].operation@ != op by {
                assert(init[i] == es[i]);
            }
        }
    }
}

/// The events up to `i + 1` are those up to `i` and the event at `i`.
proof fn lemma_take_step(es: Seq<RuntimeTelemetryEvent>, i: int)
    requires
        0 <= i < es.len(),
    ensures
        es.take(i + 1).drop_last() == es.take(i),
        es.take(i + 1).last() == es[i],
{
    assert(es.take(i + 1).drop_last() =~= es.take(i));
}

/// The figures of every operation over the events, in order of first
/// occurrence.
fn accumulate(events: &Vec<RuntimeTelemetryEvent>) -> (m: StringMap<Accumulator>)
    ensures
        m.wf(),
        forall|op: Seq<char>| #[trigger] m.view().contains_key(op) <==> has_op(events@, op),
        forall|op: Seq<char>|
            #[trigger] m.view().contains_key(op) ==> accumulates(m.view()[op], events@, op),
{
    let ghost es = events@;
    let mut map: StringMap<Accumulator> = StringMap::new();
    let mut i: usize = 0;
    while i < events.len()
        invariant
            i <= es.len(),
            es == events@,
            map.wf(),
            forall|op: Seq<char>| #[trigger] map.view().contains_key(op) <==> has_op(es.take(i as int), op),
            forall|op: Seq<char>|
                #[trigger] map.view().contains_key(op) ==> accumulates(map.view()[op], es.take(i as int), op),
        decreases es.len() - i,
    {
        let e = &events[i];
        let ghost pre = es.take(i as int);
        let ghost post = es.take(i + 1);
        let ghost op = e.operation@;
        proof {
            lemma_take_step(es, i as int);
            lemma_op_figures(pre, op);
            lemma_op_figures(post, op);
        }
        let cur = match map.get(e.operation.as_str()) {
            Some(a) => *a,
            None => Accumulator {
                count: 0,
                slow_count: 0,
                error_count: 0,
                total_elapsed_ms: 0,
                max_elapsed_ms: 0,
                last_elapsed_ms: 0,
            },
        };
        proof {
            if !map.view().contains_key(op) {
                assert(!has_op(pre, op));
            }
            assert(accumulates(cur, pre, op));
        }
        let failed = event_failed(e);
        let next = Accumulator {
            count: cur.count + 1,
            slow_count: if e.slow {
                cur.slow_count + 1
            } else {
                cur.slow_count
            },
            error_count: if failed {
                cur.error_count + 1
            } else {
                cur.error_count
            },
            total_elapsed_ms: cur.total_elapsed_ms.saturating_add(e.elapsed_ms),
            max_elapsed_ms: if e.elapsed_ms > cur.max_elapsed_ms {
                e.elapsed_ms
            } else {
                cur.max_elapsed_ms
            },
            last_elapsed_ms: e.elapsed_ms,
        };
        let ghost old_map = map.view();
        map.insert(e.operation.clone(), next);
        proof {
            assert(accumulates(next, post, op));
            assert(has_op(post, op)) by {
                assert(post[i as int].operation@ == op);
            }
            assert forall|k: Seq<char>| #[trigger] map.view().contains_key(k) <==> has_op(post, k) by {
                if k != op {
                    if has_op(post, k) {
                        let t = choose|t: int| 0 <= t < post.len() && #[trigger] post[t].operation@ == k;
                        assert(t < i);
                        assert(pre[t] == post[t]);
                    }
                    if has_op(pre, k) {
                        let t = choose|t: int| 0 <= t < pre.len() && #[trigger] pre[t].operation@ == k;
                        assert(pre[t] == post[t]);
                    }
                }
            }
            assert forall|k: Seq<char>| #[trigger] map.view().contains_key(k) implies accumulates(
                map.view()[k],
                post,
                k,
            ) by {
                if k != op {
                    assert(old_map.contains_key(k));
                }
            }
        }
        i += 1;
    }
    proof {
        assert(es.take(i as int) =~= es);
    }
    map
}

/// The figures of one operation, timed over the events.
fn summary_item(operation: &String, acc: Accumulator) -> (it: RuntimeTelemetrySummaryItem)
    requires
        acc.count > 0,
    ensures
        it.operation@ == operation@,
        it.count == acc.count,
        it.slow_count == acc.slow_count,
        it.error_count == acc.error_count,
        it.total_elapsed_ms == acc.total_elapsed_ms,
        it.average_elapsed_ms == acc.total_elapsed_ms as int / acc.count as int,
        it.max_elapsed_ms == acc.max_elapsed_ms,
        it.last_elapsed_ms == acc.last_elapsed_ms,
{
    let count: u64 = acc.count as u64;
    RuntimeTelemetrySummaryItem {
        operation: operation.clone(),
        count: acc.count,
        slow_count: acc.slow_count,
        error_count: acc.error_count,
        total_elapsed_ms: acc.total_elapsed_ms,
        average_elapsed_ms: acc.total_elapsed_ms / count,
        max_elapsed_ms: acc.max_elapsed_ms,
        last_elapsed_ms: acc.last_elapsed_ms,
    }
}

/// Whether `a` comes before `b` in the summary.
fn item_ranks_before(a: &RuntimeTelemetrySummaryItem, b: &RuntimeTelemetrySummaryItem) -> (r: bool)
    ensures
        r == ranks_before(*a, *b),
{
    if a.total_elapsed_ms != b.total_elapsed_ms {
        a.total_elapsed_ms > b.total_elapsed_ms
    } else if a.max_elapsed_ms != b.max_elapsed_ms {
        a.max_elapsed_ms > b.max_elapsed_ms
    } else {
        str_lt(a.operation.as_str(), b.operation.as_str())
    }
}

/// Summary order is a strict total order on items of distinct operations.
proof fn lemma_rank_order(a: RuntimeTelemetrySummaryItem, b: RuntimeTelemetrySummaryItem, c: RuntimeTelemetrySummaryItem)
    ensures
        !ranks_before(a, a),
        ranks_before(a, b) && ranks_before(b, c) ==> ranks_before(a, c),
        ranks_before(a, b) ==> !ranks_before(b, a),
        a.operation@ != b.operation@ ==> ranks_before(a, b) || ranks_before(b, a),
{
    lemma_seq_order(a.operation@, b.operation@, c.operation@);
    lemma_seq_lt_total(a.operation@, b.operation@);
    lemma_seq_lt_irreflexive(a.operation@);
}

/// Inserts `it` into items in summary order, where it belongs.
fn insert_in_order(out: &mut Vec<RuntimeTelemetrySummaryItem>, it: RuntimeTelemetrySummaryItem) -> (p: usize)
    requires
        in_summary_order(old(out)@),
        forall|a: int| 0 <= a < old(out)@.len() ==> #[trigger] old(out)@[a].operation@ != it.operation@,
    ensures
        p <= old(out)@.len(),
        final(out)@ == old(out)@.insert(p as int, it),
        in_summary_order(final(out)@),
{
    let ghost o = out@;
    let mut p: usize = 0;
    while p < out.len() && !item_ranks_before(&it, &out[p])
        invariant
            out@ == o,
            p <= o.len(),
            forall|a: int| 0 <= a < o.len() ==> #[trigger] o[a].operation@ != it.operation@,
            forall|a: int| 0 <= a < p ==> ranks_before(#[trigger] o[a], it),
        decreases o.len() - p,
    {
        proof {
            lemma_rank_order(it, o[p as int], it);
        }
        p += 1;
    }
    let ghost gi = it;
    out.insert(p, it);
    proof {
        let n = o.insert(p as int, gi);
        assert(out@ == n);
        assert forall|a: int, b: int| 0 <= a < b < n.len() implies ranks_before(
            #[trigger] n[a],
            #[trigger] n[b],
        ) by {
            if b < p {
                assert(n[a] == o[a] && n[b] == o[b]);
            } else if b == p {
                assert(n[a] == o[a]);
            } else if a < p {
                assert(n[a] == o[a] && n[b] == o[b - 1]);
            } else if a == p {
                assert(n[b] == o[b - 1]);
                if b - 1 > p {
                    assert(ranks_before(o[p as int], o[b - 1]));
                    lemma_rank_order(gi, o[p as int], o[b - 1]);
                }
            } else {
                assert(n[a] == o[a - 1] && n[b] == o[b - 1]);
            }
        }
    }
    p
}

/// The summary of a run of events: one item per operation, in summary
/// order.
pub fn summarize_events(events: &Vec<RuntimeTelemetryEvent>) -> (r: Vec<RuntimeTelemetrySummaryItem>)
    ensures
        is_summary(r@, events@),
{
    let ghost es = events@;
    let map = accumulate(events);
    let ghost m = map.view();
    let ents = map.into_entries();
    proof {
        lemma_map_of(ents@);
    }
    let mut out: Vec<RuntimeTelemetrySummaryItem> = Vec::new();
    let ghost mut built: Seq<RuntimeTelemetrySummaryItem> = Seq::empty();
    let mut j: usize = 0;
    while j < ents.len()
        invariant
            j <= ents@.len(),
            distinct_keys(ents@),
            map_of(ents@) == m,
            forall|k: Seq<char>| #[trigger] m.contains_key(k) <==> has_op(es, k),
            forall|k: Seq<char>| #[trigger] m.contains_key(k) ==> accumulates(m[k], es, k),
            forall|k: Seq<char>| #[trigger] m.contains_key(k) <==> exists|t: int| key_at(ents@, k, t),
            forall|t: int| 0 <= t < ents@.len() ==> #[trigger] m[ents@[t].0@] == ents@[t].1,
            built.len() == j,
            forall|t: int|
                0 <= t < j ==> (#[trigger] built[t]).operation@ == ents@[t].0@ && has_op(es, built[t].operation@)
                    && describes(built[t], es),
            in_summary_order(out@),
            forall|a: int| 0 <= a < out@.len() ==> exists|t: int| 0 <= t < j && #[trigger] built[t] == #[trigger] out@[a],
            forall|t: int| 0 <= t < j ==> out@.contains(#[trigger] built[t]),
        decreases ents@.len() - j,
    {
        let key = &ents[j].0;
        let acc = ents[j].1;
        let ghost k = key@;
        proof {
            assert(key_at(ents@, k, j as int));
            assert(m.contains_key(k));
            assert(m[k] == acc);
            lemma_op_figures(es, k);
        }
        let it = summary_item(key, acc);
        let ghost gi = it;
        proof {
            assert forall|a: int| 0 <= a < out@.len() implies #[trigger] out@[a].operation@ != gi.operation@ by {
                let t = choose|t: int| 0 <= t < j && #[trigger] built[t] == out@[a];
                assert(ents@[t].0@ != ents@[j as int].0@);
            }
        }
        let ghost o = out@;
        let p = insert_in_order(&mut out, it);
        proof {
            let nb = built.push(gi);
            assert(nb[j as int] == gi);
            assert forall|t: int| 0 <= t < j implies #[trigger] nb[t] == built[t] by {}
            assert forall|a: int| 0 <= a < out@.len() implies exists|t: int|
                0 <= t < j + 1 && #[trigger] nb[t] == #[trigger] out@[a] by {
                if a < p {
                    assert(out@[a] == o[a]);
                    let t = choose|t: int| 0 <= t < j && #[trigger] built[t] == o[a];
                    assert(nb[t] == out@[a]);
                } else if a == p {
                    assert(nb[j as int] == out@[a]);
                } else {
                    assert(out@[a] == o[a - 1]);
                    let t = choose|t: int| 0 <= t < j && #[trigger] built[t] == o[a - 1];
                    assert(nb[t] == out@[a]);
                }
            }
            assert forall|t: int| 0 <= t < j + 1 implies out@.contains(#[trigger] nb[t]) by {
                if t == j {
                    assert(out@[p as int] == gi);
                } else {
                    assert(o.contains(built[t]));
                    let i = choose|i: int| 0 <= i < o.len() && o[i] == built[t];
                    if i < p {
                        assert(out@[i] == built[t]);
                    } else {
                        assert(out@[i + 1] == built[t]);
                    }
                }
            }
            built = nb;
        }
        j += 1;
    }
    proof {
        assert forall|op: Seq<char>| #[trigger] has_op(es, op) implies exists|a: int|
            0 <= a < out@.len() && #[trigger] out@[a].operation@ == op by {
            assert(m.contains_key(op));
            let t = choose|t: int| key_at(ents@, op, t);
            assert(out@.contains(built[t]));
            let a = choose|a: int| 0 <= a < out@.len() && out@[a] == built[t];
            assert(out@[a].operation@ == op);
        }
        assert forall|a: int| 0 <= a < out@.len() implies has_op(es, #[trigger] out@[a].operation@)
            && describes(out@[a], es) by {
            let t = choose|t: int| 0 <= t < j && #[trigger] built[t] == out@[a];
        }
    }
    out
}

/// The telemetry kept in memory: the most recent events, oldest first.
pub struct RuntimeTelemetryLog {
    path: String,
    recent: VecDeque<RuntimeTelemetryEvent>,
    recent_limit: usize,
    slow_event_threshold_ms: u64,
}

impl RuntimeTelemetryLog {
    /// The retained events, oldest first.
    pub closed spec fn retained(&self) -> Seq<RuntimeTelemetryEvent> {
        self.recent@
    }

    /// How many events are retained at most.
    pub closed spec fn limit(&self) -> nat {
        self.recent_limit as nat
    }

    /// From how many milliseconds on an event is slow.
    pub closed spec fn slow_threshold(&self) -> u64 {
        self.slow_event_threshold_ms
    }

    /// The log file the events are appended to.
    pub closed spec fn log_path(&self) -> Seq<char> {
        self.path@
    }

    /// No more events are retained than the limit, which is positive.
    pub closed spec fn wf(&self) -> bool {
        &&& 0 < self.recent_limit
        &&& self.recent@.len() <= self.recent_limit
    }

    /// Telemetry appended to `path`, with the default limits and no events.
    pub fn new(path: String) -> (t: Self)
        ensures
            t.wf(),
            t.retained() == Seq::<RuntimeTelemetryEvent>::empty(),
            t.limit() == DEFAULT_RECENT_EVENT_LIMIT,
            t.slow_threshold() == DEFAULT_SLOW_EVENT_THRESHOLD_MS,
            t.log_path() == path@,
    {
        RuntimeTelemetryLog {
            path,
            recent: VecDeque::new(),
            recent_limit: DEFAULT_RECENT_EVENT_LIMIT,
            slow_event_threshold_ms: DEFAULT_SLOW_EVENT_THRESHOLD_MS,
        }
    }

    /// The log file.
    pub fn path(&self) -> (r: &str)
        ensures
            r@ == self.log_path(),
    {
        self.path.as_str()
    }

    /// Keeps an event, letting the oldest go when the limit is reached.
    pub fn record_event(&mut self, event: RuntimeTelemetryEvent)
        requires
            old(self).wf(),
        ensures
            final(self).wf(),
            final(self).retained() == retained_after(old(self).retained(), event, old(self).limit()),
            final(self).limit() == old(self).limit(),
            final(self).slow_threshold() == old(self).slow_threshold(),
            final(self).log_path() == old(self).log_path(),
    {
        if self.recent.len() >= self.recent_limit {
            let _ = self.recent.pop_front();
        }
        self.recent.push_back(event);
    }

    /// Records an operation that took `elapsed_ms`, at `recorded_at`: it is
    /// slow from the threshold on, and its error text is cut to the limit.
    /// Gives back a copy of the recorded event, for the log file.
    pub fn record_duration(
        &mut self,
        recorded_at: String,
        operation: String,
        elapsed_ms: u64,
        status: String,
        fields: BTreeMap<String, String>,
        metrics: BTreeMap<String, u64>,
        error: Option<String>,
    ) -> (e: RuntimeTelemetryEvent)
        requires
            old(self).wf(),
        ensures
            final(self).wf(),
            e.recorded_at == recorded_at,
            e.operation == operation,
            e.status == status,
            e.elapsed_ms == elapsed_ms,
            e.slow == (elapsed_ms >= old(self).slow_threshold()),
            e.fields@ == fields@,
            e.metrics@ == metrics@,
            opt_view(e.error) == match error {
                Some(s) => Some(truncated_error(s@)),
                None => None::<Seq<char>>,
            },
            exists|kept: RuntimeTelemetryEvent|
                same_event(kept, e) && final(self).retained() == retained_after(
                    old(self).retained(),
                    kept,
                    old(self).limit(),
                ),
            final(self).limit() == old(self).limit(),
            final(self).slow_threshold() == old(self).slow_threshold(),
            final(self).log_path() == old(self).log_path(),
    {
        let error = match error {
            Some(value) => Some(truncate_error(value.as_str())),
            None => None,
        };
        let event = RuntimeTelemetryEvent {
            recorded_at,
            operation,
            status,
            elapsed_ms,
            slow: elapsed_ms >= self.slow_event_threshold_ms,
            fields,
            metrics,
            error,
        };
        let kept = event.duplicate();
        self.record_event(kept);
        event
    }

    /// The latest `limit` retained events (at least one, at most the
    /// retention limit), oldest first, and their summary.
    pub fn snapshot(&self, limit: usize) -> (s: RuntimeTelemetrySnapshot)
        requires
            self.wf(),
        ensures
            s.path@ == self.log_path(),
            s.retained_event_count == self.retained().len(),
            s.returned_event_count == s.events@.len(),
            s.events@.len() == returned_count(limit as nat, self.limit(), self.retained().len()),
            forall|i: int|
                0 <= i < s.events@.len() ==> same_event(
                    #[trigger] s.events@[i],
                    self.retained()[self.retained().len() - s.events@.len() + i],
                ),
            s.slow_event_threshold_ms == self.slow_threshold(),
            is_summary(s.summary@, s.events@),
    {
        let retained_event_count = self.recent.len();
        let clamped = if limit < 1 {
            1
        } else if limit > self.recent_limit {
            self.recent_limit
        } else {
            limit
        };
        let take = if clamped < retained_event_count {
            clamped
        } else {
            retained_event_count
        };
        let start = retained_event_count - take;
        let mut events: Vec<RuntimeTelemetryEvent> = Vec::new();
        let mut i: usize = start;
        while i < retained_event_count
            invariant
                start <= i <= retained_event_count,
                retained_event_count == self.recent@.len(),
                events@.len() == i - start,
                forall|k: int|
                    0 <= k < events@.len() ==> same_event(#[trigger] events@[k], self.recent@[start + k]),
            decreases retained_event_count - i,
        {
            events.push(self.recent[i].duplicate());
            i += 1;
        }
        let summary = summarize_events(&events);
        RuntimeTelemetrySnapshot {
            path: self.path.clone(),
            retained_event_count,
            returned_event_count: events.len(),
            slow_event_threshold_ms: self.slow_event_threshold_ms,
            events,
            summary,
        }
    }
}

/// What a snapshot reads back of a write: once an event is recorded it is
/// the last one retained, the retained events stay within the limit, and
/// every snapshot returns at least that event.
pub proof fn lemma_recorded_event_is_latest(kept: Seq<RuntimeTelemetryEvent>, e: RuntimeTelemetryEvent, limit: nat, asked: nat)
    requires
        0 < limit,
        kept.len() <= limit,
    ensures
        retained_after(kept, e, limit).len() <= limit,
        retained_after(kept, e, limit).last() == e,
        1 <= returned_count(asked, limit, retained_after(kept, e, limit).len()),
{
}

/// The events kept after each of `es` is recorded in turn, oldest first.
pub open spec fn retained_after_all(kept: Seq<RuntimeTelemetryEvent>, es: Seq<RuntimeTelemetryEvent>, limit: nat) -> Seq<RuntimeTelemetryEvent>
    decreases es.len(),
{
    if es.len() == 0 {
        kept
    } else {
        retained_after(retained_after_all(kept, es.drop_last(), limit), es.last(), limit)
    }
}

/// Where the last `limit` of `n` items begin.
pub open spec fn window_start(n: nat, limit: nat) -> nat {
    if n > limit {
        (n - limit) as nat
    } else {
        0
    }
}

/// Retention over a run of recordings: whatever was kept before (within the
/// limit), recording `es` one after another keeps the last `limit` of all
/// of them, in the order they were recorded; older ones are dropped.
pub proof fn lemma_retention_keeps_the_latest(kept: Seq<RuntimeTelemetryEvent>, es: Seq<RuntimeTelemetryEvent>, limit: nat)
    requires
        0 < limit,
        kept.len() <= limit,
    ensures
        retained_after_all(kept, es, limit) == (kept + es).subrange(
            window_start(kept.len() + es.len(), limit) as int,
            (kept.len() + es.len()) as int,
        ),
        retained_after_all(kept, es, limit).len() <= limit,
    decreases es.len(),
{
    let s = kept + es;
    let n = s.len();
    if es.len() == 0 {
        assert(s =~= kept);
        assert(s.subrange(0, n as int) =~= kept);
    } else {
        lemma_retention_keeps_the_latest(kept, es.drop_last(), limit);
        assert(kept + es.drop_last() =~= s.drop_last());
        let prev = retained_after_all(kept, es.drop_last(), limit);
        let st = window_start((n - 1) as nat, limit);
        assert(prev == s.drop_last().subrange(st as int, n - 1));
        assert(es.last() == s[n - 1]);
        if prev.len() >= limit && prev.len() > 0 {
            assert(prev.drop_first().push(es.last()) =~= s.subrange(window_start(n, limit) as int, n as int));
        } else {
            assert(prev.push(es.last()) =~= s.subrange(window_start(n, limit) as int, n as int));
        }
    }
}

/// A snapshot after a run of recordings on a fresh log: of the events
/// recorded, the last `min(m, limit)` are retained, and the snapshot asked
/// for `asked` returns the last `n` of those, `n` being `asked` (at least
/// one) bounded by the limit and by what is retained, in recording order.
pub proof fn lemma_snapshot_after_recordings(es: Seq<RuntimeTelemetryEvent>, limit: nat, asked: nat)
    requires
        0 < limit,
    ensures
        ({
            let kept = retained_after_all(Seq::empty(), es, limit);
            let n = returned_count(asked, limit, kept.len());
            &&& kept.len() == if es.len() < limit { es.len() } else { limit }
            &&& n <= kept.len()
            &&& forall|i: int| 0 <= i < n ==> #[trigger] kept[kept.len() - n + i] == es[es.len() - n + i]
        }),
{
    lemma_retention_keeps_the_latest(Seq::empty(), es, limit);
    assert(Seq::<RuntimeTelemetryEvent>::empty() + es =~= es);
}

/// A summary lists each operation once.
pub proof fn lemma_summary_one_item_per_operation(r: Seq<RuntimeTelemetrySummaryItem>, es: Seq<RuntimeTelemetryEvent>)
    requires
        is_summary(r, es),
    ensures
        forall|a: int, b: int| #![trigger r[a], r[b]] 0 <= a < b < r.len() ==> r[a].operation@ != r[b].operation@,
{
    assert forall|a: int, b: int| #![trigger r[a], r[b]] 0 <= a < b < r.len() implies r[a].operation@ != r[b].operation@ by {
        if r[a].operation@ == r[b].operation@ {
            assert(describes(r[a], es) && describes(r[b], es));
            assert(ranks_before(r[a], r[b]));
            lemma_seq_lt_irreflexive(r[a].operation@);
        }
    }
}

} // verus!
