use touchpipe::point::Point;
use touchpipe::tracker::TouchEvent;
use touchpipe::tracker::TouchTracker;

#[test]
fn empty_tracker_has_no_point() {
    let tracker = TouchTracker::new();
    assert_eq!(tracker.average_position(), None);
}

#[test]
fn centroid_of_single_touch() {
    let mut tracker = TouchTracker::new();
    tracker.handle_event(TouchEvent::SlotSelect(0));
    tracker.handle_event(TouchEvent::PositionX(100));
    tracker.handle_event(TouchEvent::PositionY(200));
    assert_eq!(tracker.average_position(), Some(Point { x: 100, y: 200 }));
}

#[test]
fn centroid_is_componentwise_mean() {
    let mut tracker = TouchTracker::new();
    tracker.handle_event(TouchEvent::SlotSelect(0));
    tracker.handle_event(TouchEvent::PositionX(10));
    tracker.handle_event(TouchEvent::PositionY(20));
    tracker.handle_event(TouchEvent::SlotSelect(1));
    tracker.handle_event(TouchEvent::PositionX(30));
    tracker.handle_event(TouchEvent::PositionY(40));
    assert_eq!(tracker.average_position(), Some(Point { x: 20, y: 30 }));
}

#[test]
fn centroid_rounds_down() {
    let mut tracker = TouchTracker::new();
    tracker.handle_event(TouchEvent::SlotSelect(0));
    tracker.handle_event(TouchEvent::PositionX(0));
    tracker.handle_event(TouchEvent::SlotSelect(1));
    tracker.handle_event(TouchEvent::PositionX(101));
    // x sums to 101 over two touches; the mean rounds down to 50.
    assert_eq!(tracker.average_position(), Some(Point { x: 50, y: 0 }));
}

#[test]
fn centroid_rounds_down_for_negative_sums() {
    let mut tracker = TouchTracker::new();
    tracker.handle_event(TouchEvent::SlotSelect(0));
    tracker.handle_event(TouchEvent::PositionX(-5));
    tracker.handle_event(TouchEvent::SlotSelect(1));
    tracker.handle_event(TouchEvent::PositionX(0));
    // x sums to -5 over two touches; the floored mean is -3.
    assert_eq!(tracker.average_position(), Some(Point { x: -3, y: 0 }));
}

#[test]
fn button_release_clears_all_slots() {
    let mut tracker = TouchTracker::new();
    tracker.handle_event(TouchEvent::SlotSelect(0));
    tracker.handle_event(TouchEvent::PositionX(10));
    tracker.handle_event(TouchEvent::SlotSelect(3));
    tracker.handle_event(TouchEvent::PositionX(90));
    tracker.handle_event(TouchEvent::PositionY(120));
    tracker.handle_event(TouchEvent::TouchButton(0));
    assert_eq!(tracker.average_position(), None);
}

#[test]
fn button_press_does_not_clear() {
    let mut tracker = TouchTracker::new();
    tracker.handle_event(TouchEvent::SlotSelect(0));
    tracker.handle_event(TouchEvent::PositionX(10));
    tracker.handle_event(TouchEvent::TouchButton(1));
    assert_eq!(tracker.average_position(), Some(Point { x: 10, y: 0 }));
}

#[test]
fn tracking_id_removes_selected_slot() {
    let mut tracker = TouchTracker::new();
    tracker.handle_event(TouchEvent::SlotSelect(0));
    tracker.handle_event(TouchEvent::PositionX(10));
    tracker.handle_event(TouchEvent::PositionY(20));
    tracker.handle_event(TouchEvent::SlotSelect(1));
    tracker.handle_event(TouchEvent::PositionX(90));
    tracker.handle_event(TouchEvent::PositionY(80));
    tracker.handle_event(TouchEvent::SlotSelect(0));
    tracker.handle_event(TouchEvent::TrackingId(-1));
    assert_eq!(tracker.average_position(), Some(Point { x: 90, y: 80 }));
}

#[test]
fn fresh_tracking_id_keeps_touch() {
    let mut tracker = TouchTracker::new();
    tracker.handle_event(TouchEvent::SlotSelect(0));
    tracker.handle_event(TouchEvent::PositionX(10));
    tracker.handle_event(TouchEvent::TrackingId(57));
    assert_eq!(tracker.average_position(), Some(Point { x: 10, y: 0 }));
}

#[test]
fn position_update_keeps_other_axis() {
    let mut tracker = TouchTracker::new();
    tracker.handle_event(TouchEvent::SlotSelect(2));
    tracker.handle_event(TouchEvent::PositionX(10));
    tracker.handle_event(TouchEvent::PositionY(20));
    tracker.handle_event(TouchEvent::PositionX(30));
    assert_eq!(tracker.average_position(), Some(Point { x: 30, y: 20 }));
}

#[test]
fn first_axis_report_defaults_other_axis_to_zero() {
    let mut tracker = TouchTracker::new();
    tracker.handle_event(TouchEvent::SlotSelect(4));
    tracker.handle_event(TouchEvent::PositionY(77));
    assert_eq!(tracker.average_position(), Some(Point { x: 0, y: 77 }));
}

#[test]
fn unrelated_events_are_ignored() {
    let mut tracker = TouchTracker::new();
    tracker.handle_event(TouchEvent::SlotSelect(0));
    tracker.handle_event(TouchEvent::PositionX(10));
    tracker.handle_event(TouchEvent::Other);
    assert_eq!(tracker.average_position(), Some(Point { x: 10, y: 0 }));
}

#[test]
fn removing_missing_slot_changes_nothing() {
    let mut tracker = TouchTracker::new();
    tracker.handle_event(TouchEvent::SlotSelect(0));
    tracker.handle_event(TouchEvent::PositionX(10));
    tracker.handle_event(TouchEvent::SlotSelect(9));
    tracker.handle_event(TouchEvent::TrackingId(-1));
    assert_eq!(tracker.average_position(), Some(Point { x: 10, y: 0 }));
}
