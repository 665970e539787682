//! The observation schemes: plain containers of time sequences, each tagging
//! what its times mean (exact, right-, left-, interval-censored, weighted).
use vstd::prelude::*;

verus! {

/// Exactly observed event times.
pub struct Uncensored<F>(pub Vec<F>);

/// Events known only to occur after the recorded time.
pub struct RightCensored<F>(pub Vec<F>);

/// Events known only to occur before the recorded time.
pub struct LeftCensored<F>(pub Vec<F>);

/// Events known to occur within `[start[i], stop[i]]`.
pub struct IntervalCensored<F> {
    pub start: Vec<F>,
    pub stop: Vec<F>,
}

/// A dataset split into exactly observed times and a censored part `C`.
pub struct PartiallyObserved<F, C> {
    pub observed: Uncensored<F>,
    pub censored: C,
}

/// A scheme `T` whose observations carry importance weights, index for index.
pub struct Weighted<T, F> {
    pub time: T,
    pub weight: Vec<F>,
}

/// A censoring scheme that is built from one sequence of times.
pub trait CensoredTimes<F>: Sized {
    /// The times the scheme holds, in order.
    spec fn times(&self) -> Seq<F>;

    fn from_times(times: Vec<F>) -> (r: Self)
        ensures
            r.times() == times@,
    ;
}

/// A censoring scheme that is built from parallel start and stop sequences.
pub trait CensoredIntervals<F>: Sized {
    /// The interval starts, in order.
    spec fn starts(&self) -> Seq<F>;

    /// The interval stops, in order.
    spec fn stops(&self) -> Seq<F>;

    fn from_intervals(start: Vec<F>, stop: Vec<F>) -> (r: Self)
        ensures
            r.starts() == start@,
            r.stops() == stop@,
    ;
}

impl<F> CensoredTimes<F> for RightCensored<F> {
    open spec fn times(&self) -> Seq<F> {
        self.0@
    }

    fn from_times(times: Vec<F>) -> (r: Self) {
        RightCensored(times)
    }
}

impl<F> CensoredTimes<F> for LeftCensored<F> {
    open spec fn times(&self) -> Seq<F> {
        self.0@
    }

    fn from_times(times: Vec<F>) -> (r: Self) {
        LeftCensored(times)
    }
}

impl<F> CensoredIntervals<F> for IntervalCensored<F> {
    open spec fn starts(&self) -> Seq<F> {
        self.start@
    }

    open spec fn stops(&self) -> Seq<F> {
        self.stop@
    }

    fn from_intervals(start: Vec<F>, stop: Vec<F>) -> (r: Self) {
        IntervalCensored { start, stop }
    }
}

impl<F> From<Vec<F>> for RightCensored<F> {
    fn from(times: Vec<F>) -> (r: Self) {
        RightCensored(times)
    }
}

impl<F> vstd::std_specs::convert::FromSpecImpl<Vec<F>> for RightCensored<F> {
    open spec fn obeys_from_spec() -> bool {
        true
    }

    open spec fn from_spec(times: Vec<F>) -> Self {
        RightCensored(times)
    }
}

impl<F> From<Vec<F>> for LeftCensored<F> {
    fn from(times: Vec<F>) -> (r: Self) {
        LeftCensored(times)
    }
}

impl<F> vstd::std_specs::convert::FromSpecImpl<Vec<F>> for LeftCensored<F> {
    open spec fn obeys_from_spec() -> bool {
        true
    }

    open spec fn from_spec(times: Vec<F>) -> Self {
        LeftCensored(times)
    }
}

impl<F> From<(Vec<F>, Vec<F>)> for IntervalCensored<F> {
    fn from(bounds: (Vec<F>, Vec<F>)) -> (r: Self) {
        let (start, stop) = bounds;
        IntervalCensored { start, stop }
    }
}

impl<F> vstd::std_specs::convert::FromSpecImpl<(Vec<F>, Vec<F>)> for IntervalCensored<F> {
    open spec fn obeys_from_spec() -> bool {
        true
    }

    open spec fn from_spec(bounds: (Vec<F>, Vec<F>)) -> Self {
        IntervalCensored { start: bounds.0, stop: bounds.1 }
    }
}

} // verus!
