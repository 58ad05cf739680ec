use cpo_analyzer::time_resolver::resolve_timestep;

// Times in microsecond-scale fixed-point units: 0.0, 1.0, 2.0, 5.0.
fn example_times() -> Vec<i64> {
    vec![0, 1_000_000, 2_000_000, 5_000_000]
}

#[test]
fn resolves_to_after_when_closer() {
    // requested 1.6: |1.6 - 2.0| < |1.6 - 1.0|, so index 2.
    let times = example_times();
    assert_eq!(resolve_timestep(&times, 1_600_000), 2);
}

#[test]
fn resolves_to_before_when_closer() {
    // requested 1.4: |1.4 - 1.0| < |1.4 - 2.0|, so index 1.
    let times = example_times();
    assert_eq!(resolve_timestep(&times, 1_400_000), 1);
}

#[test]
fn resolves_tie_to_before() {
    // requested 1.5 is equidistant from 1.0 and 2.0; ties favor "before".
    let times = example_times();
    assert_eq!(resolve_timestep(&times, 1_500_000), 1);
}

#[test]
fn resolves_past_the_end_to_last() {
    let times = example_times();
    assert_eq!(resolve_timestep(&times, 9_000_000), 3);
}

#[test]
fn resolves_before_the_start_to_first() {
    let times = vec![2_000_000, 3_000_000];
    assert_eq!(resolve_timestep(&times, 0), 0);
}

#[test]
fn resolves_exact_hit() {
    let times = example_times();
    assert_eq!(resolve_timestep(&times, 2_000_000), 2);
}

#[test]
fn resolves_single_entry() {
    let times = vec![7];
    assert_eq!(resolve_timestep(&times, 1_000_000), 0);
}
