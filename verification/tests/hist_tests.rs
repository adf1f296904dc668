use nu_plugin_plot::hist::tally_bins;

#[test]
fn counts_per_bin() {
    let ids = vec![Some(0), Some(1), Some(1), Some(3), None, Some(0)];
    let counts = tally_bins(&ids, 4);
    assert_eq!(counts, vec![2, 2, 0, 1]);
}

#[test]
fn counts_sum_to_in_range_samples() {
    let ids = vec![Some(0), Some(2), None, Some(7), Some(1), Some(2), None];
    let bins = 3;
    let counts = tally_bins(&ids, bins);
    let total: usize = counts.iter().sum();
    let in_range = ids.iter().filter(|e| matches!(e, Some(v) if *v < bins)).count();
    assert_eq!(total, in_range);
    assert_eq!(total, 4);
}

#[test]
fn out_of_range_bin_is_dropped() {
    // A sample mapped exactly to the bin count (the upper bound of the
    // last bin under truncating division) is not counted.
    let ids = vec![Some(5), Some(4)];
    let counts = tally_bins(&ids, 5);
    assert_eq!(counts, vec![0, 0, 0, 0, 1]);
}

#[test]
fn no_bins_no_counts() {
    let ids = vec![Some(0), None];
    let counts = tally_bins(&ids, 0);
    assert!(counts.is_empty());
}

#[test]
fn empty_input_gives_zero_counts() {
    let ids: Vec<Option<usize>> = Vec::new();
    assert_eq!(tally_bins(&ids, 3), vec![0, 0, 0]);
}
