use touchpipe::filter::FilterConfig;
use touchpipe::filter::FilterState;
use touchpipe::point::Point;

fn seeded_at_origin() -> FilterState {
    let mut filter = FilterState::new(FilterConfig::new());
    let first = filter.apply(Point { x: 0, y: 0 });
    assert_eq!(first, Point { x: 0, y: 0 });
    filter
}

#[test]
fn first_point_is_accepted_unconditionally() {
    let mut filter = FilterState::new(FilterConfig::new());
    let out = filter.apply(Point { x: 700, y: 900 });
    assert_eq!(out, Point { x: 700, y: 900 });
    assert_eq!(filter.last_confirmed, Point { x: 700, y: 900 });
    assert_eq!(filter.smoothed, Point { x: 700, y: 900 });
    assert!(filter.has_received);
}

#[test]
fn single_frame_spike_is_rejected() {
    let mut filter = seeded_at_origin();
    // A spike far beyond the detection threshold: held as candidate only.
    filter.apply(Point { x: 500, y: 500 });
    assert_eq!(filter.last_confirmed, Point { x: 0, y: 0 });
    assert_eq!(filter.candidate, Some(Point { x: 500, y: 500 }));
    // The next point does not land near the candidate: the spike is
    // discarded and the confirmed position never moved.
    filter.apply(Point { x: 10, y: 10 });
    assert_eq!(filter.last_confirmed, Point { x: 0, y: 0 });
    assert_eq!(filter.candidate, None);
}

#[test]
fn rejected_spike_never_leaks_into_smoothing() {
    let mut filter = seeded_at_origin();
    let during_spike = filter.apply(Point { x: 500, y: 500 });
    assert_eq!(during_spike, Point { x: 0, y: 0 });
    let after_spike = filter.apply(Point { x: 400, y: 400 });
    assert_eq!(after_spike, Point { x: 0, y: 0 });
}

#[test]
fn genuine_jump_is_accepted_by_frame_two() {
    let mut filter = seeded_at_origin();
    // Frame one: a large move becomes a candidate, the cursor stays put.
    filter.apply(Point { x: 500, y: 0 });
    assert_eq!(filter.last_confirmed, Point { x: 0, y: 0 });
    // Frame two lands 20 units from the candidate, within the confirmation
    // distance of 75: the jump is confirmed.
    filter.apply(Point { x: 520, y: 0 });
    assert_eq!(filter.last_confirmed, Point { x: 500, y: 0 });
    assert_eq!(filter.candidate, None);
}

#[test]
fn small_move_is_accepted_immediately() {
    let mut filter = seeded_at_origin();
    let out = filter.apply(Point { x: 50, y: 0 });
    assert_eq!(filter.last_confirmed, Point { x: 50, y: 0 });
    assert_eq!(out, Point { x: 25, y: 0 });
}

#[test]
fn move_at_exactly_the_threshold_is_accepted() {
    let mut filter = seeded_at_origin();
    // Distance exactly 100 is not strictly above the detection threshold.
    filter.apply(Point { x: 100, y: 0 });
    assert_eq!(filter.last_confirmed, Point { x: 100, y: 0 });
    assert_eq!(filter.candidate, None);
}

#[test]
fn full_weight_disables_smoothing() {
    let config = FilterConfig {
        detect_threshold: 100,
        confirm_distance: 75,
        alpha_num: 1,
        alpha_den: 1,
    };
    let mut filter = FilterState::new(config);
    filter.apply(Point { x: 0, y: 0 });
    let out = filter.apply(Point { x: 50, y: 30 });
    assert_eq!(out, Point { x: 50, y: 30 });
}

#[test]
fn smoothing_converges_within_ten_iterations() {
    let mut filter = seeded_at_origin();
    let target = Point { x: 100, y: 100 };
    let mut out = Point { x: 0, y: 0 };
    let mut previous = 0i64;
    for _ in 0..10 {
        out = filter.apply(target);
        // Monotone approach from below, never overshooting.
        assert!(out.x >= previous && out.x <= 100);
        assert_eq!(out.x, out.y);
        previous = out.x;
    }
    // Within one unit of the target after at most ten iterations.
    assert_eq!(out, Point { x: 99, y: 99 });
    assert!(100 - out.x <= 1 && 100 - out.y <= 1);
}
