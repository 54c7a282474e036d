use mandelbrot_wasm::escape::escape_step;

/// Count returned by an evaluation that is shown `within[k]` for the orbit
/// point `z_k`, and `true` for every point past the end.
fn run(within: &[bool], max_iter: u32) -> u32 {
    let mut count = 0;
    loop {
        let inside = within.get(count as usize).copied().unwrap_or(true);
        match escape_step(count, max_iter, inside) {
            Some(next) => count = next,
            None => return count,
        }
    }
}

#[test]
fn step_goes_on_within_radius_and_budget() {
    assert_eq!(escape_step(0, 1, true), Some(1));
    assert_eq!(escape_step(3, 5, true), Some(4));
    assert_eq!(escape_step(499, 500, true), Some(500));
    assert_eq!(escape_step(u32::MAX - 1, u32::MAX, true), Some(u32::MAX));
}

#[test]
fn step_stops_outside_radius() {
    assert_eq!(escape_step(0, 1, false), None);
    assert_eq!(escape_step(3, 5, false), None);
    assert_eq!(escape_step(0, 0, false), None);
}

#[test]
fn step_stops_at_budget() {
    assert_eq!(escape_step(5, 5, true), None);
    assert_eq!(escape_step(500, 500, true), None);
    assert_eq!(escape_step(u32::MAX, u32::MAX, true), None);
    assert_eq!(escape_step(6, 5, true), None);
}

#[test]
fn step_with_no_budget_never_starts() {
    assert_eq!(escape_step(0, 0, true), None);
    assert_eq!(run(&[], 0), 0);
    assert_eq!(run(&[true, false], 0), 0);
}

#[test]
fn run_returns_first_point_outside_radius() {
    assert_eq!(run(&[true, false], 10), 1);
    assert_eq!(run(&[true, true, true, false, true], 10), 3);
    assert_eq!(run(&[false], 10), 0);
}

#[test]
fn run_is_capped_by_budget() {
    assert_eq!(run(&[true, true, true, false], 2), 2);
    assert_eq!(run(&[true, true, true, false], 3), 3);
    assert_eq!(run(&[], 17), 17);
}

#[test]
fn run_never_exceeds_budget() {
    let traces: [&[bool]; 4] = [&[], &[false], &[true, false], &[true, true, true, true, false]];
    for trace in traces {
        for max_iter in 0..8 {
            assert!(run(trace, max_iter) <= max_iter);
        }
    }
}
