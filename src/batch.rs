//! The batch assembler: orders drained events by priority tier and cuts the
//! result down to the configured maximum batch size.
use vstd::prelude::*;
use vstd::multiset::Multiset;

use crate::event::{Event, EventKind, Severity, is_error_log, is_sensor};

verus! {

/// Priority tier of an event: 0 for error log lines, 1 for sensor readings,
/// 2 for every other log line. Lower tiers are delivered first.
pub open spec fn tier(e: Event) -> nat {
    if is_error_log(e) {
        0
    } else if is_sensor(e) {
        1
    } else {
        2
    }
}

/// The events of `s` whose tier is `t`, in the order they stand in `s`.
pub open spec fn of_tier(s: Seq<Event>, t: nat) -> Seq<Event>
    decreases s.len(),
{
    if s.len() == 0 {
        Seq::empty()
    } else if tier(s.last()) == t {
        of_tier(s.drop_last(), t).push(s.last())
    } else {
        of_tier(s.drop_last(), t)
    }
}

/// `s` in priority order: every tier in turn, each in arrival order.
pub open spec fn priority_order(s: Seq<Event>) -> Seq<Event> {
    of_tier(s, 0) + of_tier(s, 1) + of_tier(s, 2)
}

/// How many events a batch of at most `max` events keeps out of `n`.
pub open spec fn kept_len(n: nat, max: nat) -> nat {
    if n > max {
        max
    } else {
        n
    }
}

/// The batch assembled from the drained events `s`: the first `max` events
/// of their priority order.
pub open spec fn batch_of(s: Seq<Event>, max: nat) -> Seq<Event> {
    priority_order(s).take(kept_len(s.len(), max) as int)
}

/// A sequence whose tiers never decrease from front to back.
pub open spec fn tiers_ascend(s: Seq<Event>) -> bool {
    forall|i: int, j: int| 0 <= i < j < s.len() ==> tier(#[trigger] s[i]) <= tier(#[trigger] s[j])
}

/// An ordered, size-bounded set of events, together with how many drained
/// events were dropped to bound it.
pub struct Batch {
    pub events: Vec<Event>,
    pub dropped: usize,
}

/// The priority tier of `e`.
pub fn event_tier(e: &Event) -> (r: u8)
    ensures
        r as nat == tier(*e),
{
    match &e.kind {
        EventKind::Log { severity, .. } => {
            if *severity == Severity::Error {
                0
            } else {
                2
            }
        },
        EventKind::Sensor { .. } => 1,
    }
}

/// Every event of `of_tier(s, t)` has tier `t`.
proof fn lemma_of_tier_members(s: Seq<Event>, t: nat)
    ensures
        forall|i: int| 0 <= i < of_tier(s, t).len() ==> tier(#[trigger] of_tier(s, t)[i]) == t,
    decreases s.len(),
{
    if s.len() > 0 {
        let p = of_tier(s.drop_last(), t);
        lemma_of_tier_members(s.drop_last(), t);
        assert forall|i: int| 0 <= i < of_tier(s, t).len() implies tier(
            #[trigger] of_tier(s, t)[i],
        ) == t by {
            if i < p.len() {
                assert(of_tier(s, t)[i] == p[i]);
            }
        }
    }
}

/// Selecting a tier distributes over concatenation.
proof fn lemma_of_tier_add(a: Seq<Event>, b: Seq<Event>, t: nat)
    ensures
        of_tier(a + b, t) == of_tier(a, t) + of_tier(b, t),
    decreases b.len(),
{
    if b.len() == 0 {
        assert(a + b =~= a);
        assert(of_tier(a, t) + of_tier(b, t) =~= of_tier(a, t));
    } else {
        assert((a + b).drop_last() =~= a + b.drop_last());
        assert((a + b).last() == b.last());
        lemma_of_tier_add(a, b.drop_last(), t);
        if tier(b.last()) == t {
            assert(of_tier(a, t) + of_tier(b.drop_last(), t).push(b.last()) =~= (of_tier(a, t)
                + of_tier(b.drop_last(), t)).push(b.last()));
        }
    }
}

/// Selecting a tier from a sequence that holds only tier `u` keeps all of it
/// when `t == u`, and nothing otherwise.
proof fn lemma_of_tier_uniform(s: Seq<Event>, t: nat, u: nat)
    requires
        forall|i: int| 0 <= i < s.len() ==> tier(#[trigger] s[i]) == u,
    ensures
        of_tier(s, t) == (if t == u {
            s
        } else {
            Seq::<Event>::empty()
        }),
    decreases s.len(),
{
    if s.len() == 0 {
        assert(s =~= Seq::<Event>::empty());
    } else {
        assert forall|i: int| 0 <= i < s.drop_last().len() implies tier(
            #[trigger] s.drop_last()[i],
        ) == u by {
            assert(s.drop_last()[i] == s[i]);
        }
        lemma_of_tier_uniform(s.drop_last(), t, u);
        if t == u {
            assert(s.drop_last().push(s.last()) =~= s);
        }
    }
}

/// The three tiers together are as long as the whole sequence.
proof fn lemma_of_tier_lens(s: Seq<Event>)
    ensures
        of_tier(s, 0).len() + of_tier(s, 1).len() + of_tier(s, 2).len() == s.len(),
    decreases s.len(),
{
    if s.len() > 0 {
        lemma_of_tier_lens(s.drop_last());
    }
}

/// The three tiers together hold exactly the events of the sequence.
proof fn lemma_of_tier_multiset(s: Seq<Event>)
    ensures
        of_tier(s, 0).to_multiset().add(of_tier(s, 1).to_multiset()).add(
            of_tier(s, 2).to_multiset(),
        ) == s.to_multiset(),
    decreases s.len(),
{
    broadcast use vstd::seq_lib::group_to_multiset_ensures;
    broadcast use vstd::multiset::group_multiset_axioms;

    if s.len() == 0 {
        assert(s.to_multiset() =~= Multiset::empty());
        assert(Seq::<Event>::empty().to_multiset() =~= Multiset::empty());
        assert(of_tier(s, 0).to_multiset().add(of_tier(s, 1).to_multiset()).add(
            of_tier(s, 2).to_multiset(),
        ) =~= Multiset::empty());
    } else {
        let p = s.drop_last();
        let x = s.last();
        lemma_of_tier_multiset(p);
        assert(p.push(x) =~= s);
        assert(of_tier(s, 0).to_multiset().add(of_tier(s, 1).to_multiset()).add(
            of_tier(s, 2).to_multiset(),
        ) =~= of_tier(p, 0).to_multiset().add(of_tier(p, 1).to_multiset()).add(
            of_tier(p, 2).to_multiset(),
        ).insert(x));
    }
}

/// Ordering by priority keeps the relative order of events of equal tier, and
/// drops or adds no event: each tier of the result is that tier of the input.
pub proof fn lemma_priority_order_stable(s: Seq<Event>)
    ensures
        priority_order(s).len() == s.len(),
        priority_order(s).to_multiset() == s.to_multiset(),
        forall|t: nat| #[trigger] of_tier(priority_order(s), t) == of_tier(s, t),
{
    lemma_of_tier_lens(s);
    lemma_of_tier_multiset(s);
    vstd::seq_lib::lemma_multiset_commutative(of_tier(s, 0) + of_tier(s, 1), of_tier(s, 2));
    vstd::seq_lib::lemma_multiset_commutative(of_tier(s, 0), of_tier(s, 1));
    assert forall|t: nat| #[trigger] of_tier(priority_order(s), t) == of_tier(s, t) by {
        let a = of_tier(s, 0);
        let b = of_tier(s, 1);
        let c = of_tier(s, 2);
        lemma_of_tier_members(s, 0);
        lemma_of_tier_members(s, 1);
        lemma_of_tier_members(s, 2);
        lemma_of_tier_add(a + b, c, t);
        lemma_of_tier_add(a, b, t);
        lemma_of_tier_uniform(a, t, 0);
        lemma_of_tier_uniform(b, t, 1);
        lemma_of_tier_uniform(c, t, 2);
        if t == 0 {
            assert(a + Seq::<Event>::empty() + Seq::<Event>::empty() =~= a);
        } else if t == 1 {
            assert(Seq::<Event>::empty() + b + Seq::<Event>::empty() =~= b);
        } else if t == 2 {
            assert(Seq::<Event>::empty() + Seq::<Event>::empty() + c =~= c);
        } else {
            assert(Seq::<Event>::empty() + Seq::<Event>::empty() + Seq::<Event>::empty()
                =~= Seq::<Event>::empty());
            lemma_no_tier_above_two(s, t);
        }
    }
}

/// No event has a tier above two.
proof fn lemma_no_tier_above_two(s: Seq<Event>, t: nat)
    requires
        t > 2,
    ensures
        of_tier(s, t) == Seq::<Event>::empty(),
    decreases s.len(),
{
    if s.len() > 0 {
        lemma_no_tier_above_two(s.drop_last(), t);
    }
}

/// In priority order, error log lines come before all sensor readings, which
/// come before all other log lines.
pub proof fn lemma_priority_order_ascends(s: Seq<Event>)
    ensures
        tiers_ascend(priority_order(s)),
{
    let a = of_tier(s, 0);
    let b = of_tier(s, 1);
    let c = of_tier(s, 2);
    let r = priority_order(s);
    lemma_of_tier_members(s, 0);
    lemma_of_tier_members(s, 1);
    lemma_of_tier_members(s, 2);
    assert forall|i: int| 0 <= i < r.len() implies tier(#[trigger] r[i]) == (if i < a.len() {
        0nat
    } else if i < a.len() + b.len() {
        1nat
    } else {
        2nat
    }) by {
        if i < a.len() {
            assert(r[i] == a[i]);
        } else if i < a.len() + b.len() {
            assert(r[i] == b[i - a.len()]);
        } else {
            assert(r[i] == c[i - a.len() - b.len()]);
        }
    }
}

/// When more events were drained than a batch may hold, the batch holds
/// exactly `max` events, and what is dropped is exactly the tail of the
/// priority order: no dropped event ranks above a kept one.
pub proof fn lemma_truncation_drops_tail(s: Seq<Event>, max: nat)
    requires
        s.len() > max,
    ensures
        batch_of(s, max).len() == max,
        batch_of(s, max) + priority_order(s).skip(max as int) == priority_order(s),
        forall|i: int, j: int|
            0 <= i < max && 0 <= j < s.len() - max ==> tier(#[trigger] batch_of(s, max)[i]) <= tier(
                #[trigger] priority_order(s).skip(max as int)[j],
            ),
{
    let r = priority_order(s);
    lemma_priority_order_stable(s);
    lemma_priority_order_ascends(s);
    assert(r.take(max as int) + r.skip(max as int) =~= r);
    assert forall|i: int, j: int|
        0 <= i < max && 0 <= j < s.len() - max implies tier(#[trigger] batch_of(s, max)[i]) <= tier(
            #[trigger] r.skip(max as int)[j],
        ) by {
        assert(batch_of(s, max)[i] == r[i]);
        assert(r.skip(max as int)[j] == r[max + j]);
    }
}

/// Orders `events` by priority tier. Within a tier the arrival order is kept:
/// this is a stable sort on the tier.
pub fn prioritize(events: Vec<Event>) -> (r: Vec<Event>)
    ensures
        r@ == priority_order(events@),
{
    let ghost orig = events@;
    let mut rest = events;
    let mut errors: Vec<Event> = Vec::new();
    let mut sensors: Vec<Event> = Vec::new();
    let mut others: Vec<Event> = Vec::new();
    while rest.len() > 0
        invariant
            orig == orig.take(orig.len() - rest@.len()) + rest@,
            rest@.len() <= orig.len(),
            errors@ == of_tier(orig.take(orig.len() - rest@.len()), 0),
            sensors@ == of_tier(orig.take(orig.len() - rest@.len()), 1),
            others@ == of_tier(orig.take(orig.len() - rest@.len()), 2),
        decreases rest@.len(),
    {
        let ghost k = orig.len() - rest@.len();
        let ghost before = rest@;
        let e = rest.remove(0);
        proof {
            assert(orig[k] == (orig.take(k) + before)[k]);
            assert(orig[k] == e);
            assert(orig.take(k + 1).drop_last() =~= orig.take(k));
            assert(orig.take(k + 1).last() == e);
            assert(orig =~= orig.take(k + 1) + rest@);
        }
        let t = event_tier(&e);
        if t == 0 {
            errors.push(e);
        } else if t == 1 {
            sensors.push(e);
        } else {
            others.push(e);
        }
    }
    proof {
        assert(orig.take(orig.len() as int) =~= orig);
    }
    errors.append(&mut sensors);
    errors.append(&mut others);
    errors
}

/// Assembles the batch for one dispatch tick: orders the drained events by
/// priority and, where there are more than `max`, drops the lowest-priority
/// tail, reporting how many were dropped.
pub fn assemble_batch(drained: Vec<Event>, max: usize) -> (b: Batch)
    ensures
        b.events@ == batch_of(drained@, max as nat),
        b.events@.len() == kept_len(drained@.len(), max as nat),
        b.dropped == drained@.len() - kept_len(drained@.len(), max as nat),
        tiers_ascend(b.events@),
{
    let ghost s = drained@;
    let mut events = prioritize(drained);
    proof {
        lemma_priority_order_stable(s);
        lemma_priority_order_ascends(s);
    }
    let total = events.len();
    let mut dropped: usize = 0;
    if total > max {
        dropped = total - max;
        events.truncate(max);
    }
    Batch { events, dropped }
}

} // verus!
