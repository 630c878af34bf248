use touchpipe::mapper::SourceRect;
use touchpipe::pipeline::Pipeline;
use touchpipe::point::Point;
use touchpipe::tracker::TouchEvent;

fn unit_rect() -> SourceRect {
    SourceRect { min_x: 0, max_x: 1000, min_y: 0, max_y: 1000 }
}

#[test]
fn full_cycle_emits_the_mapped_smoothed_point() {
    let mut pipeline = Pipeline::new(unit_rect(), 0);
    let events = vec![
        TouchEvent::SlotSelect(0),
        TouchEvent::PositionX(600),
        TouchEvent::PositionY(700),
    ];
    let out = pipeline.poll_cycle(&events, 1000);
    // First point ever: accepted and seeding the smoother unchanged.
    assert_eq!(out, Some(Point { x: 600, y: 700 }));
}

#[test]
fn empty_touch_set_advances_nothing() {
    let mut pipeline = Pipeline::new(unit_rect(), 0);
    let out = pipeline.poll_cycle(&Vec::new(), 1000);
    assert_eq!(out, None);
    assert!(!pipeline.filter.has_received);
    assert_eq!(pipeline.gate.last_time_us, 0);
}

#[test]
fn release_in_the_same_batch_suppresses_the_point() {
    let mut pipeline = Pipeline::new(unit_rect(), 0);
    let events = vec![
        TouchEvent::SlotSelect(0),
        TouchEvent::PositionX(600),
        TouchEvent::PositionY(700),
        TouchEvent::TouchButton(0),
    ];
    let out = pipeline.poll_cycle(&events, 1000);
    assert_eq!(out, None);
    assert!(!pipeline.filter.has_received);
}

#[test]
fn emission_rate_is_capped_across_cycles() {
    let mut pipeline = Pipeline::new(unit_rect(), 0);
    let touch = vec![
        TouchEvent::SlotSelect(0),
        TouchEvent::PositionX(600),
        TouchEvent::PositionY(700),
    ];
    assert!(pipeline.poll_cycle(&touch, 1000).is_some());
    // The touch moves, but the next cycle falls inside the interval.
    let moved = vec![TouchEvent::PositionX(100), TouchEvent::PositionY(100)];
    assert_eq!(pipeline.poll_cycle(&moved, 1500), None);
    // The filter still advanced: one more quiet cycle and the emission gate opens.
    assert!(pipeline.poll_cycle(&Vec::new(), 2000).is_some());
}

#[test]
fn centroid_of_two_touches_is_forwarded() {
    let mut pipeline = Pipeline::new(unit_rect(), 0);
    let events = vec![
        TouchEvent::SlotSelect(0),
        TouchEvent::PositionX(200),
        TouchEvent::PositionY(300),
        TouchEvent::SlotSelect(1),
        TouchEvent::PositionX(400),
        TouchEvent::PositionY(500),
    ];
    let out = pipeline.poll_cycle(&events, 1000);
    assert_eq!(out, Some(Point { x: 300, y: 400 }));
}
