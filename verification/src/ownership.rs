//! Who owns what: the objects that the sampling engine is answerable for at
//! each moment, and the proof that every object it is given is released
//! exactly once or handed on.

use crate::io_report::{Action, Cursor, Engine, Event, Stage};
use vstd::multiset::Multiset;
use vstd::prelude::*;

verus! {

/// The object that an answer puts into the engine's hands: what a call
/// created, a null subscription excepted.
pub open spec fn acquired(stage: Stage, ev: Event) -> Multiset<usize> {
    match ev {
        Event::Handle(h) => if stage == Stage::Subscribing && h == 0 {
            Multiset::empty()
        } else {
            Multiset::singleton(h)
        },
        Event::Sample(raw) => Multiset::singleton(raw.handle),
        Event::Delta { handle, .. } => Multiset::singleton(handle),
        _ => Multiset::empty(),
    }
}

/// The object that a call takes out of the engine's hands.
pub open spec fn released(a: Action) -> Multiset<usize> {
    match a {
        Action::Release { handle } => Multiset::singleton(handle),
        _ => Multiset::empty(),
    }
}

/// The delta samples of a series.
pub open spec fn deltas(samples: Seq<(Cursor, u64)>) -> Seq<usize> {
    samples.map_values(|r: (Cursor, u64)| r.0.sample)
}

/// The delta samples that the engine has made and nobody has taken yet.
pub open spec fn results(e: Engine) -> Multiset<usize> {
    deltas(e.samples).to_multiset().add(
        match e.sample {
            Some(c) => Multiset::singleton(c.sample),
            None => Multiset::empty(),
        },
    )
}

/// The channels, the subscription and the raw sample kept for the next
/// series: what a ready engine owns.
pub open spec fn standing(e: Engine) -> Multiset<usize> {
    Multiset::singleton(e.chan).insert(e.subs).add(
        match e.prev {
            Some(p) => Multiset::singleton(p.handle),
            None => Multiset::empty(),
        },
    )
}

/// What the engine owns apart from the results, by its stage.
pub open spec fn in_hand(e: Engine) -> Multiset<usize> {
    match e.stage {
        Stage::Copying | Stage::Merging { .. } | Stage::Duplicating => e.copies.to_multiset(),
        Stage::Discarding { at } => e.copies.skip(at + 1).to_multiset().insert(e.chan),
        Stage::Checking | Stage::Subscribing | Stage::ClosingSubs => Multiset::singleton(e.chan),
        Stage::Abandoning { .. } | Stage::Failed { .. } | Stage::ClosingChan | Stage::Closed =>
            Multiset::empty(),
        Stage::ClosingPrev => Multiset::singleton(e.chan).insert(e.subs),
        Stage::SampleSleep { first } | Stage::SampleSecond { first } => standing(e).insert(
            first.handle,
        ),
        Stage::SampleDelta { first, second } => standing(e).insert(first.handle).insert(
            second.handle,
        ),
        Stage::SampleRelease { second } => standing(e).insert(second.handle),
        Stage::SeriesDelta { next } => standing(e).insert(next.handle),
        _ => standing(e),
    }
}

/// Everything that the engine is answerable for: each object as often as it
/// has to be released.
pub open spec fn held(e: Engine) -> Multiset<usize> {
    in_hand(e).add(results(e))
}

/// An empty sequence holds nothing.
proof fn lemma_nothing(s: Seq<usize>)
    requires
        s.len() == 0,
    ensures
        s.to_multiset() == Multiset::<usize>::empty(),
{
    broadcast use vstd::multiset::group_multiset_axioms;

    s.to_multiset_ensures();
    assert forall|h: usize| s.to_multiset().count(h) == 0 by {
        assert(!s.contains(h));
    }
    assert(s.to_multiset() =~= Multiset::<usize>::empty());
}

/// A sequence holds its first item and the rest.
proof fn lemma_skip_first(s: Seq<usize>, at: int)
    requires
        0 <= at < s.len(),
    ensures
        s.skip(at).to_multiset() == s.skip(at + 1).to_multiset().insert(s[at]),
{
    let rest = s.skip(at + 1);
    assert(rest.insert(0, s[at]) =~= s.skip(at));
    vstd::seq_lib::to_multiset_insert(rest, 0, s[at]);
}

/// The ledger's equation for one answer.
pub open spec fn balanced(e: Engine, ev: Event) -> bool {
    held(e.resume(ev).0).add(released(e.resume(ev).1)) =~= held(e).add(acquired(e.stage, ev))
}

/// The equation holds while the channels are being built.
proof fn lemma_ledger_building(e: Engine, ev: Event)
    requires
        e.wf(),
        e.accepts(ev),
        e.stage is Copying || e.stage is Merging || e.stage is Duplicating || e.stage is Discarding
            || e.stage is Checking || e.stage is Subscribing || e.stage is Abandoning,
    ensures
        balanced(e, ev),
{
    broadcast use vstd::multiset::group_multiset_axioms;

    let after = e.resume(ev).0;
    lemma_nothing(deltas(e.samples));
    match e.stage {
        Stage::Copying => {
            vstd::seq_lib::to_multiset_build(e.copies, ev->Handle_0);
            assert(balanced(e, ev));
        },
        Stage::Duplicating => {
            lemma_skip_first(e.copies, 0);
            assert(e.copies.skip(0) =~= e.copies);
            assert(balanced(e, ev));
        },
        Stage::Discarding { at } => {
            if at + 1 < e.copies.len() {
                lemma_skip_first(e.copies, at + 1);
            } else {
                lemma_nothing(e.copies.skip(at + 1));
                lemma_nothing(after.copies);
            }
            assert(balanced(e, ev));
        },
        _ => {
            assert(balanced(e, ev));
        },
    }
}

/// The equation holds while a single interval is being sampled.
proof fn lemma_ledger_interval(e: Engine, ev: Event)
    requires
        e.wf(),
        e.accepts(ev),
        e.stage is SampleFirst || e.stage is SampleSleep || e.stage is SampleSecond
            || e.stage is SampleDelta || e.stage is SampleRelease || e.stage is SampleReleased,
    ensures
        balanced(e, ev),
{
    broadcast use vstd::multiset::group_multiset_axioms;

    match e.stage {
        Stage::SampleFirst { .. } => {
            assert(balanced(e, ev));
        },
        Stage::SampleSleep { .. } => {
            assert(balanced(e, ev));
        },
        Stage::SampleSecond { .. } => {
            assert(balanced(e, ev));
        },
        Stage::SampleDelta { .. } => {
            assert(balanced(e, ev));
        },
        Stage::SampleRelease { .. } => {
            assert(balanced(e, ev));
        },
        _ => {
            assert(balanced(e, ev));
        },
    }
}

/// The equation holds while a series is being sampled.
proof fn lemma_ledger_series(e: Engine, ev: Event)
    requires
        e.wf(),
        e.accepts(ev),
        e.stage is SeriesInitial || e.stage is SeriesSleep || e.stage is SeriesCapture
            || e.stage is SeriesDelta || e.stage is SeriesRelease,
    ensures
        balanced(e, ev),
{
    broadcast use vstd::multiset::group_multiset_axioms;

    let after = e.resume(ev).0;
    match e.stage {
        Stage::SeriesInitial => {
            assert(balanced(e, ev));
        },
        Stage::SeriesSleep => {
            assert(balanced(e, ev));
        },
        Stage::SeriesCapture => {
            assert(balanced(e, ev));
        },
        Stage::SeriesDelta { next } => {
            let cursor = Cursor {
                sample: ev->Delta_handle,
                index: 0,
                items: ev->Delta_items,
                items_size: ev->Delta_items_size as int,
            };
            let span = after.samples.last().1;
            assert(deltas(e.samples.push((cursor, span))) =~= deltas(e.samples).push(
                ev->Delta_handle,
            ));
            vstd::seq_lib::to_multiset_build(deltas(e.samples), ev->Delta_handle);
            assert(balanced(e, ev));
        },
        _ => {
            assert(balanced(e, ev));
        },
    }
}

/// The equation holds while the engine lets go.
proof fn lemma_ledger_closing(e: Engine, ev: Event)
    requires
        e.wf(),
        e.accepts(ev),
        e.stage is ClosingPrev || e.stage is ClosingSubs || e.stage is ClosingChan,
    ensures
        balanced(e, ev),
{
    broadcast use vstd::multiset::group_multiset_axioms;

    match e.stage {
        Stage::ClosingPrev => {
            assert(balanced(e, ev));
        },
        Stage::ClosingSubs => {
            assert(balanced(e, ev));
        },
        _ => {
            assert(balanced(e, ev));
        },
    }
}

/// Nothing is lost and nothing released twice: after every answer, what the
/// engine holds and what its next call releases is what it held before and
/// what the answer gave it.
pub proof fn lemma_ledger(e: Engine, ev: Event)
    requires
        e.wf(),
        e.accepts(ev),
    ensures
        held(e.resume(ev).0).add(released(e.resume(ev).1)) == held(e).add(acquired(e.stage, ev)),
{
    if e.stage is Copying || e.stage is Merging || e.stage is Duplicating || e.stage is Discarding
        || e.stage is Checking || e.stage is Subscribing || e.stage is Abandoning {
        lemma_ledger_building(e, ev);
    } else if e.stage is SampleFirst || e.stage is SampleSleep || e.stage is SampleSecond
        || e.stage is SampleDelta || e.stage is SampleRelease || e.stage is SampleReleased {
        lemma_ledger_interval(e, ev);
    } else if e.stage is SeriesInitial || e.stage is SeriesSleep || e.stage is SeriesCapture
        || e.stage is SeriesDelta || e.stage is SeriesRelease {
        lemma_ledger_series(e, ev);
    } else {
        lemma_ledger_closing(e, ev);
    }
}

/// Starting an operation moves nothing: a ready engine holds the same when
/// it begins a single interval or a series.
pub proof fn lemma_start_keeps(e: Engine, msec: u64, count: usize)
    requires
        e.wf(),
        e.stage == Stage::Ready,
    ensures
        held(e.get_sample(msec).0) == held(e),
        released(e.get_sample(msec).1) == Multiset::<usize>::empty(),
        held(e.get_samples(msec, count).0) == held(e),
        released(e.get_samples(msec, count).1) == Multiset::<usize>::empty(),
{
}

/// Letting go starts with the release of what a ready engine holds first: the
/// raw sample that it kept, or else the subscription.
pub proof fn lemma_close_ledger(e: Engine)
    requires
        e.wf(),
    ensures
        held(e.close().0).add(released(e.close().1)) == held(e),
{
    broadcast use vstd::multiset::group_multiset_axioms;

    assert(held(e.close().0).add(released(e.close().1)) =~= held(e));
}

/// An engine that has let go, or that could not be built, holds nothing but
/// the results that were made and not taken.
pub proof fn lemma_closed_holds_nothing(e: Engine)
    requires
        e.wf(),
        e.stage is Closed || e.stage is Failed,
    ensures
        held(e) == results(e),
        e.emptied() ==> held(e) == Multiset::<usize>::empty(),
{
    broadcast use vstd::multiset::group_multiset_axioms;

    assert(held(e) =~= results(e));
    if e.emptied() {
        lemma_nothing(deltas(e.samples));
        assert(results(e) =~= Multiset::empty());
    }
}

/// Taking the deltas of a series hands them over: the engine holds what it
/// held without them.
pub proof fn lemma_taken_series(e: Engine)
    ensures
        held(Engine { samples: Seq::empty(), ..e }).add(deltas(e.samples).to_multiset()) == held(e),
{
    broadcast use vstd::multiset::group_multiset_axioms;

    let after = Engine { samples: Seq::empty(), ..e };
    lemma_nothing(deltas(after.samples));
    assert(in_hand(after) == in_hand(e));
    assert(held(after).add(deltas(e.samples).to_multiset()) =~= held(e));
}

/// Taking the delta of a single interval hands it over: the engine holds
/// what it held without it.
pub proof fn lemma_taken_interval(e: Engine)
    requires
        e.sample is Some,
    ensures
        held(Engine { sample: None, ..e }).insert(e.sample->Some_0.sample) == held(e),
{
    broadcast use vstd::multiset::group_multiset_axioms;

    let after = Engine { sample: None, ..e };
    assert(in_hand(after) == in_hand(e));
    assert(held(after).insert(e.sample->Some_0.sample) =~= held(e));
}

} // verus!
