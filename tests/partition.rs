use survival_analysis::{
    FromEvents, IntervalCensored, LeftCensored, PartiallyObserved, RightCensored,
};

#[test]
fn scalar_events_split_by_flag() {
    let times = vec![1.0, 2.0, 3.0, 4.0, 5.0];
    let flags = vec![true, false, true, false, true];
    let data: PartiallyObserved<f64, RightCensored<f64>> =
        PartiallyObserved::from_events(&times, &flags);
    assert_eq!(data.observed.0, vec![1.0, 3.0, 5.0]);
    assert_eq!(data.censored.0, vec![2.0, 4.0]);
}

#[test]
fn scalar_events_into_left_censoring() {
    let times = vec![1.0, 2.0, 3.0, 4.0, 5.0];
    let flags = vec![true, false, true, false, true];
    let data: PartiallyObserved<f64, LeftCensored<f64>> =
        PartiallyObserved::from_events(&times, &flags);
    assert_eq!(data.observed.0, vec![1.0, 3.0, 5.0]);
    assert_eq!(data.censored.0, vec![2.0, 4.0]);
}

#[test]
fn interval_events_split_by_flag() {
    let events = vec![(0.0, 1.0), (2.0, 2.0)];
    let flags = vec![false, true];
    let data: PartiallyObserved<f64, IntervalCensored<f64>> =
        PartiallyObserved::from_events(&events, &flags);
    assert_eq!(data.censored.start, vec![0.0]);
    assert_eq!(data.censored.stop, vec![1.0]);
    assert_eq!(data.observed.0, vec![2.0]);
}

#[test]
fn interval_observed_takes_stop_in_order() {
    let events = vec![(0.5, 1.5), (1.0, 4.0), (2.0, 3.0), (0.0, 9.0)];
    let flags = vec![true, false, true, false];
    let data: PartiallyObserved<f32, IntervalCensored<f32>> =
        PartiallyObserved::from_events(&events, &flags);
    assert_eq!(data.observed.0, vec![1.5, 3.0]);
    assert_eq!(data.censored.start, vec![1.0, 0.0]);
    assert_eq!(data.censored.stop, vec![4.0, 9.0]);
}

#[test]
fn branch_sizes_sum_to_record_count() {
    let times = vec![0.3, 7.0, 7.0, 1.25, 9.5, 2.0, 4.0];
    let flags = vec![false, false, true, true, false, true, false];
    let data: PartiallyObserved<f64, RightCensored<f64>> =
        PartiallyObserved::from_events(&times, &flags);
    assert_eq!(data.observed.0.len() + data.censored.0.len(), times.len());
    assert_eq!(data.observed.0, vec![7.0, 1.25, 2.0]);
    assert_eq!(data.censored.0, vec![0.3, 7.0, 9.5, 4.0]);
}

#[test]
fn all_observed_leaves_censored_empty() {
    let times = vec![2.0, 1.0];
    let flags = vec![true, true];
    let data: PartiallyObserved<f64, RightCensored<f64>> =
        PartiallyObserved::from_events(&times, &flags);
    assert_eq!(data.observed.0, vec![2.0, 1.0]);
    assert!(data.censored.0.is_empty());
}

#[test]
fn empty_streams_give_empty_branches() {
    let times: Vec<f64> = Vec::new();
    let flags: Vec<bool> = Vec::new();
    let data: PartiallyObserved<f64, RightCensored<f64>> =
        PartiallyObserved::from_events(&times, &flags);
    assert!(data.observed.0.is_empty());
    assert!(data.censored.0.is_empty());
}

#[test]
fn excess_flags_are_ignored() {
    let times = vec![1.0, 2.0];
    let flags = vec![false, true, true, false];
    let data: PartiallyObserved<f64, RightCensored<f64>> =
        PartiallyObserved::from_events(&times, &flags);
    assert_eq!(data.observed.0, vec![2.0]);
    assert_eq!(data.censored.0, vec![1.0]);
}

#[test]
fn events_without_flags_are_ignored() {
    let times = vec![1.0, 2.0, 3.0];
    let flags = vec![true];
    let data: PartiallyObserved<f64, RightCensored<f64>> =
        PartiallyObserved::from_events(&times, &flags);
    assert_eq!(data.observed.0, vec![1.0]);
    assert!(data.censored.0.is_empty());
}

#[test]
fn censoring_schemes_from_sequences() {
    let right = RightCensored::from(vec![3.0, 1.0]);
    assert_eq!(right.0, vec![3.0, 1.0]);
    let left = LeftCensored::from(vec![0.5]);
    assert_eq!(left.0, vec![0.5]);
    let interval = IntervalCensored::from((vec![0.0, 1.0], vec![2.0, 3.0]));
    assert_eq!(interval.start, vec![0.0, 1.0]);
    assert_eq!(interval.stop, vec![2.0, 3.0]);
}
