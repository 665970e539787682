//! Left truncation: entry times before which a subject was not under
//! observation. Every entry time must lie strictly after the time origin.
use vstd::prelude::*;

verus! {

/// `z` is the time origin of `F`: the value that `F::default()` gives.
pub open spec fn is_origin<F: Default>(z: F) -> bool {
    call_ensures(F::default, (), z)
}

/// Comparing `t <= z` may give `b`.
pub open spec fn at_or_before<F: PartialOrd>(t: F, z: F, b: bool) -> bool {
    call_ensures(F::le, (&t, &z), b)
}

/// Entry times that lie strictly after the origin `z`.
pub open spec fn all_after<F: PartialOrd>(times: Seq<F>, z: F) -> bool {
    forall|i: int| 0 <= i < times.len() ==> at_or_before(#[trigger] times[i], z, false)
}

/// Entry times of left-truncated observations, all strictly positive.
pub struct LeftTruncation<F: PartialOrd + Default>(Vec<F>);

impl<F: PartialOrd + Default> View for LeftTruncation<F> {
    type V = Seq<F>;

    closed spec fn view(&self) -> Seq<F> {
        self.0@
    }
}

impl<F: PartialOrd + Default> LeftTruncation<F> {
    /// Every entry time lies strictly after the origin of `F`.
    #[verifier::type_invariant]
    closed spec fn wf(self) -> bool {
        exists|z: F| is_origin(z) && all_after(self.0@, z)
    }
}

impl<F: PartialOrd + Default + Copy> LeftTruncation<F> {
    /// Accepts the entry times if each of them is strictly positive, and
    /// fails if any is zero or negative.
    pub fn new(entry_time: Vec<F>) -> (r: Result<Self, ()>)
        ensures
            match r {
                Ok(lt) => lt@ == entry_time@ && exists|z: F| is_origin(z) && all_after(entry_time@, z),
                Err(()) => exists|z: F, i: int|
                    is_origin(z) && 0 <= i < entry_time@.len() && at_or_before(entry_time@[i], z, true),
            },
    {
        let zero = F::default();
        let mut i: usize = 0;
        while i < entry_time.len()
            invariant
                is_origin(zero),
                i <= entry_time@.len(),
                forall|j: int| 0 <= j < i ==> at_or_before(#[trigger] entry_time@[j], zero, false),
            decreases entry_time@.len() - i,
        {
            let t = entry_time[i];
            if t <= zero {
                assert(at_or_before(entry_time@[i as int], zero, true));
                return Err(());
            }
            i = i + 1;
        }
        assert(all_after(entry_time@, zero));
        Ok(LeftTruncation(entry_time))
    }

    /// The entry times.
    pub fn entry_time(&self) -> (r: &Vec<F>)
        ensures
            r@ == self@,
    {
        &self.0
    }
}

} // verus!
