use escape_time::{escape_count, Evaluator};

#[test]
fn test_escape_count_first_true_index() {
    // The count is the index of the first check that reported escape.
    assert_eq!(escape_count(&vec![false, false, true, false], 10), 2);
    assert_eq!(escape_count(&vec![true, true], 8), 0);
    assert_eq!(escape_count(&vec![false, true, true], 8), 1);
}

#[test]
fn test_escape_count_no_escape_runs_to_cap() {
    // Checks that never report escape consume the full budget, and outcomes
    // beyond the end of the sequence count as not escaped.
    assert_eq!(escape_count(&vec![false, false, false, false, false], 3), 3);
    assert_eq!(escape_count(&vec![false, false], 6), 6);
    assert_eq!(escape_count(&vec![], 4), 4);
}

#[test]
fn test_escape_count_zero_cap() {
    // A zero budget returns 0 even when the first check would have fired.
    assert_eq!(escape_count(&vec![true], 0), 0);
    assert_eq!(escape_count(&vec![], 0), 0);
}

#[test]
fn test_escape_count_cap_precedes_escape() {
    // An escape at an index at or past the cap is never reached.
    assert_eq!(escape_count(&vec![false, false, true], 2), 2);
    assert_eq!(escape_count(&vec![false, false, true], 3), 2);
}

#[test]
fn test_evaluator_zero_budget_is_done_at_once() {
    let ev = Evaluator::new(0);
    assert!(ev.is_done());
    assert_eq!(ev.result(), 0);
}

#[test]
fn test_evaluator_reports_escape_index() {
    let mut ev = Evaluator::new(3);
    assert!(!ev.is_done());
    ev.record(false);
    assert!(!ev.is_done());
    ev.record(true);
    assert!(ev.is_done());
    assert_eq!(ev.result(), 1);
}

#[test]
fn test_evaluator_exhausts_budget() {
    let mut ev = Evaluator::new(4);
    let mut steps: u32 = 0;
    while !ev.is_done() {
        ev.record(false);
        steps += 1;
    }
    assert_eq!(steps, 4);
    assert_eq!(ev.result(), 4);
}

#[test]
fn test_evaluator_matches_escape_count() {
    // Driving the evaluator with a sequence of outcomes agrees with the
    // batch count over the same sequence.
    let cases: Vec<(Vec<bool>, u32)> = vec![
        (vec![], 0),
        (vec![], 5),
        (vec![true], 3),
        (vec![false, false, true], 7),
        (vec![false, false, false], 3),
        (vec![false, true, false], 2),
    ];
    for (checks, cap) in cases {
        let mut ev = Evaluator::new(cap);
        let mut i: usize = 0;
        while !ev.is_done() {
            let outcome = if i < checks.len() { checks[i] } else { false };
            ev.record(outcome);
            i += 1;
        }
        assert_eq!(ev.result(), escape_count(&checks, cap));
    }
}
