//! Partition of raw event records into an observed and a censored branch.
//!
//! Events and flags are read in lock-step; where one stream is longer than
//! the other, its excess is ignored.
use vstd::prelude::*;

use crate::schemes::{CensoredIntervals, CensoredTimes, PartiallyObserved, Uncensored};

verus! {

/// Number of records read from an event stream and a flag stream.
pub open spec fn record_count<E>(events: Seq<E>, flags: Seq<bool>) -> int {
    if events.len() <= flags.len() {
        events.len() as int
    } else {
        flags.len() as int
    }
}

/// The events among the first `n` records whose flag is set, in input order.
pub open spec fn observed_part<E>(events: Seq<E>, flags: Seq<bool>, n: int) -> Seq<E>
    decreases n,
{
    if n <= 0 {
        Seq::empty()
    } else if flags[n - 1] {
        observed_part(events, flags, n - 1).push(events[n - 1])
    } else {
        observed_part(events, flags, n - 1)
    }
}

/// The events among the first `n` records whose flag is clear, in input order.
pub open spec fn censored_part<E>(events: Seq<E>, flags: Seq<bool>, n: int) -> Seq<E>
    decreases n,
{
    if n <= 0 {
        Seq::empty()
    } else if !flags[n - 1] {
        censored_part(events, flags, n - 1).push(events[n - 1])
    } else {
        censored_part(events, flags, n - 1)
    }
}

/// The start of each interval event.
pub open spec fn starts_of<F>(events: Seq<(F, F)>) -> Seq<F> {
    events.map_values(|e: (F, F)| e.0)
}

/// The stop of each interval event.
pub open spec fn stops_of<F>(events: Seq<(F, F)>) -> Seq<F> {
    events.map_values(|e: (F, F)| e.1)
}

proof fn lemma_partition_prefix<E>(events: Seq<E>, flags: Seq<bool>, n: int)
    requires
        0 <= n <= events.len(),
        n <= flags.len(),
    ensures
        observed_part(events, flags, n).len() + censored_part(events, flags, n).len() == n,
        forall|i: int|
            0 <= i < n && flags[i] ==> observed_part(events, flags, n).contains(events[i]),
        forall|i: int|
            0 <= i < n && !flags[i] ==> censored_part(events, flags, n).contains(events[i]),
    decreases n,
{
    if n > 0 {
        lemma_partition_prefix(events, flags, n - 1);
        let obs = observed_part(events, flags, n - 1);
        let cen = censored_part(events, flags, n - 1);
        assert forall|i: int| 0 <= i < n && flags[i] implies observed_part(
            events,
            flags,
            n,
        ).contains(events[i]) by {
            if i < n - 1 {
                let k = choose|k: int| 0 <= k < obs.len() && obs[k] == events[i];
                if flags[n - 1] {
                    assert(obs.push(events[n - 1])[k] == events[i]);
                }
            } else {
                assert(obs.push(events[n - 1])[obs.len() as int] == events[i]);
            }
        }
        assert forall|i: int| 0 <= i < n && !flags[i] implies censored_part(
            events,
            flags,
            n,
        ).contains(events[i]) by {
            if i < n - 1 {
                let k = choose|k: int| 0 <= k < cen.len() && cen[k] == events[i];
                if !flags[n - 1] {
                    assert(cen.push(events[n - 1])[k] == events[i]);
                }
            } else {
                assert(cen.push(events[n - 1])[cen.len() as int] == events[i]);
            }
        }
    }
}

/// Partitioning loses and invents no record: the two branches together are
/// as long as the number of records read, the event of each record whose
/// flag is set is in the observed branch, and that of each other record is in
/// the censored branch. Within each branch the input order is kept, as
/// `observed_part` and `censored_part` append in input order.
pub proof fn lemma_partition<E>(events: Seq<E>, flags: Seq<bool>)
    ensures
        ({
            let n = record_count(events, flags);
            &&& observed_part(events, flags, n).len() + censored_part(events, flags, n).len()
                == n
            &&& forall|i: int|
                0 <= i < n && flags[i] ==> observed_part(events, flags, n).contains(events[i])
            &&& forall|i: int|
                0 <= i < n && !flags[i] ==> censored_part(events, flags, n).contains(events[i])
        }),
{
    lemma_partition_prefix(events, flags, record_count(events, flags));
}

proof fn lemma_projection_prefix<F>(events: Seq<(F, F)>, flags: Seq<bool>, n: int)
    requires
        0 <= n <= events.len(),
        n <= flags.len(),
    ensures
        observed_part(stops_of(events), flags, n) == stops_of(observed_part(events, flags, n)),
        censored_part(starts_of(events), flags, n) == starts_of(censored_part(events, flags, n)),
        censored_part(stops_of(events), flags, n) == stops_of(censored_part(events, flags, n)),
    decreases n,
{
    if n > 0 {
        lemma_projection_prefix(events, flags, n - 1);
        let obs = observed_part(events, flags, n - 1);
        let cen = censored_part(events, flags, n - 1);
        assert(stops_of(obs.push(events[n - 1])) =~= stops_of(obs).push(events[n - 1].1));
        assert(starts_of(cen.push(events[n - 1])) =~= starts_of(cen).push(events[n - 1].0));
        assert(stops_of(cen.push(events[n - 1])) =~= stops_of(cen).push(events[n - 1].1));
    }
}

/// Partitioning interval events keeps each censored interval whole: the
/// censored starts and stops are the starts and stops of one sequence of
/// records, so the `k`-th start and the `k`-th stop come from the same
/// record. The observed branch is the stop of each observed record.
pub proof fn lemma_interval_partition<F>(events: Seq<(F, F)>, flags: Seq<bool>)
    ensures
        ({
            let n = record_count(events, flags);
            &&& observed_part(stops_of(events), flags, n) == stops_of(
                observed_part(events, flags, n),
            )
            &&& censored_part(starts_of(events), flags, n) == starts_of(
                censored_part(events, flags, n),
            )
            &&& censored_part(stops_of(events), flags, n) == stops_of(
                censored_part(events, flags, n),
            )
        }),
{
    lemma_projection_prefix(events, flags, record_count(events, flags));
}

/// Builds a partially observed dataset from events and their observed flags.
pub trait FromEvents<E>: Sized {
    /// `self` is the partition of the records read from `events` and `flags`.
    spec fn partitions(&self, events: Seq<E>, flags: Seq<bool>) -> bool;

    fn from_events(events: &[E], event_observed: &[bool]) -> (r: Self)
        ensures
            r.partitions(events@, event_observed@),
    ;
}

/// Scalar events: the event is the time itself. Observed times go to the
/// exact branch, the others to the censoring scheme `C`.
impl<F: Copy, C: CensoredTimes<F>> FromEvents<F> for PartiallyObserved<F, C> {
    open spec fn partitions(&self, events: Seq<F>, flags: Seq<bool>) -> bool {
        let n = record_count(events, flags);
        &&& self.observed.0@ == observed_part(events, flags, n)
        &&& self.censored.times() == censored_part(events, flags, n)
    }

    fn from_events(events: &[F], event_observed: &[bool]) -> (r: Self) {
        let n: usize = if events.len() <= event_observed.len() {
            events.len()
        } else {
            event_observed.len()
        };
        let mut observed: Vec<F> = Vec::new();
        let mut censored: Vec<F> = Vec::new();
        let mut i: usize = 0;
        while i < n
            invariant
                n == record_count(events@, event_observed@),
                i <= n,
                observed@ == observed_part(events@, event_observed@, i as int),
                censored@ == censored_part(events@, event_observed@, i as int),
            decreases n - i,
        {
            let event = events[i];
            if event_observed[i] {
                observed.push(event);
            } else {
                censored.push(event);
            }
            i = i + 1;
        }
        PartiallyObserved { observed: Uncensored(observed), censored: C::from_times(censored) }
    }
}

/// Interval events: an observed event is known to happen at its stop; an
/// unobserved one goes to the interval-censoring scheme `C` whole.
impl<F: Copy, C: CensoredIntervals<F>> FromEvents<(F, F)> for PartiallyObserved<F, C> {
    open spec fn partitions(&self, events: Seq<(F, F)>, flags: Seq<bool>) -> bool {
        let n = record_count(events, flags);
        &&& self.observed.0@ == observed_part(stops_of(events), flags, n)
        &&& self.censored.starts() == censored_part(starts_of(events), flags, n)
        &&& self.censored.stops() == censored_part(stops_of(events), flags, n)
    }

    fn from_events(events: &[(F, F)], event_observed: &[bool]) -> (r: Self) {
        let n: usize = if events.len() <= event_observed.len() {
            events.len()
        } else {
            event_observed.len()
        };
        let mut observed: Vec<F> = Vec::new();
        let mut censored_starts: Vec<F> = Vec::new();
        let mut censored_stops: Vec<F> = Vec::new();
        let mut i: usize = 0;
        while i < n
            invariant
                n == record_count(events@, event_observed@),
                i <= n,
                observed@ == observed_part(stops_of(events@), event_observed@, i as int),
                censored_starts@ == censored_part(starts_of(events@), event_observed@, i as int),
                censored_stops@ == censored_part(stops_of(events@), event_observed@, i as int),
            decreases n - i,
        {
            let (start, stop) = events[i];
            if event_observed[i] {
                observed.push(stop);
            } else {
                censored_starts.push(start);
                censored_stops.push(stop);
            }
            i = i + 1;
        }
        PartiallyObserved {
            observed: Uncensored(observed),
            censored: C::from_intervals(censored_starts, censored_stops),
        }
    }
}

} // verus!
