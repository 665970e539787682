//! Observation schemes for time-to-event data and the partition of raw event
//! records into observed and censored parts.

pub mod events;
pub mod schemes;
pub mod truncation;

pub use schemes::{
    CensoredIntervals, CensoredTimes, IntervalCensored, LeftCensored, PartiallyObserved,
    RightCensored, Uncensored, Weighted,
};
pub use events::FromEvents;
pub use truncation::LeftTruncation;
