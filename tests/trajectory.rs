use polysolver::trace;

type State = (f64, f64, f64);

fn positive(s: State) -> bool {
    s.1 > 0.0
}

fn sample_xy(s: State) -> (f64, f64) {
    (s.0, s.1)
}

#[test]
fn zero_budget_gives_empty_sequences() {
    let advance = |s: State| (s.0 + 0.5, s.1 - 0.1, s.2);
    let (xs, ys) = trace((1e-3, 1.0, 0.0), 0, &positive, &advance, &sample_xy);
    assert!(xs.is_empty());
    assert!(ys.is_empty());
}

#[test]
fn zero_budget_ignores_domain() {
    let advance = |s: State| s;
    let (xs, ys) = trace((0.0, -1.0, 0.0), 0, &positive, &advance, &sample_xy);
    assert!(xs.is_empty());
    assert!(ys.is_empty());
}

#[test]
fn constant_state_spends_whole_budget() {
    let h = 0.01;
    let advance = move |s: State| (s.0 + h, s.1, s.2);
    let (xs, ys) = trace((1e-3, 1.0, 0.0), 1000, &positive, &advance, &sample_xy);
    assert_eq!(xs.len(), 1000);
    assert_eq!(ys.len(), 1000);
    assert!(ys.iter().all(|&y| y == 1.0));
    for i in 1..xs.len() {
        assert_eq!(xs[i], xs[i - 1] + h);
    }
}

#[test]
fn stops_before_first_non_positive_value() {
    let advance = |s: (u32, u32)| (s.0 + 1, s.1.saturating_sub(3));
    let inside = |s: (u32, u32)| s.1 > 0;
    let sample = |s: (u32, u32)| (s.0, s.1);
    let (xs, ys) = trace((0, 10), 100, &inside, &advance, &sample);
    assert_eq!(xs, vec![0, 1, 2, 3]);
    assert_eq!(ys, vec![10, 7, 4, 1]);
}

#[test]
fn budget_ends_run_before_domain() {
    let advance = |s: (u32, u32)| (s.0 + 1, s.1.saturating_sub(3));
    let inside = |s: (u32, u32)| s.1 > 0;
    let sample = |s: (u32, u32)| (s.0, s.1);
    let (xs, ys) = trace((0, 10), 2, &inside, &advance, &sample);
    assert_eq!(xs, vec![0, 1]);
    assert_eq!(ys, vec![10, 7]);
}

#[test]
fn start_outside_domain_records_nothing() {
    let advance = |s: State| (s.0 + 1.0, s.1 + 1.0, s.2);
    let (xs, ys) = trace((1.0, 0.0, 0.0), 50, &positive, &advance, &sample_xy);
    assert!(xs.is_empty());
    assert!(ys.is_empty());
}

#[test]
fn closed_form_descent_is_aligned_and_positive() {
    let h = 0.01;
    let advance = move |s: State| {
        let x = s.0 + h;
        (x, 1.0 - x * x / 6.0, -x / 3.0)
    };
    let (xs, ys) = trace((1e-3, 1.0, 0.0), 1000, &positive, &advance, &sample_xy);
    assert_eq!(xs.len(), ys.len());
    assert!(xs.len() < 1000);
    assert!(ys.iter().all(|&y| y > 0.0));
    for i in 1..xs.len() {
        assert_eq!(xs[i], xs[i - 1] + h);
    }
    let last = *xs.last().unwrap() + h;
    assert!(1.0 - last * last / 6.0 <= 0.0);
    assert!((last - 6.0_f64.sqrt()).abs() < 2.0 * h);
}
