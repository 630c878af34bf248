use touchpipe::mapper::SourceRect;
use touchpipe::point::Point;

fn unit_rect() -> SourceRect {
    SourceRect { min_x: 0, max_x: 1000, min_y: 0, max_y: 1000 }
}

#[test]
fn maps_corners_to_output_corners() {
    let rect = unit_rect();
    assert_eq!(rect.map(Point { x: 0, y: 0 }), Point { x: 0, y: 0 });
    assert_eq!(rect.map(Point { x: 1000, y: 1000 }), Point { x: 1000, y: 1000 });
}

#[test]
fn clamps_raw_input_outside_the_rectangle() {
    let rect = unit_rect();
    assert_eq!(rect.map(Point { x: -50000, y: 2000 }), Point { x: 0, y: 1000 });
    assert_eq!(rect.map(Point { x: 1001, y: -1 }), Point { x: 1000, y: 0 });
}

#[test]
fn maps_midpoint_to_center() {
    let rect = SourceRect { min_x: 0, max_x: 2000, min_y: -100, max_y: 100 };
    assert_eq!(rect.map(Point { x: 1000, y: 0 }), Point { x: 500, y: 500 });
}

#[test]
fn rescales_with_floor_division() {
    let rect = SourceRect { min_x: 0, max_x: 7, min_y: 0, max_y: 7 };
    // 3 * 1000 / 7 rounds down to 428.
    assert_eq!(rect.map(Point { x: 3, y: 7 }), Point { x: 428, y: 1000 });
}

#[test]
fn negative_rectangle_bounds_map_exactly() {
    let rect = SourceRect { min_x: -3678, max_x: 3934, min_y: -2478, max_y: 2587 };
    assert_eq!(rect.map(Point { x: -3678, y: 2587 }), Point { x: 0, y: 1000 });
    let mid = rect.map(Point { x: 128, y: 54 });
    // (128 + 3678) * 1000 / 7612 == 500; (54 + 2478) * 1000 / 5065 == 499.
    assert_eq!(mid, Point { x: 500, y: 499 });
}

#[test]
fn centered_section_is_the_central_quarter() {
    let full = SourceRect { min_x: -3678, max_x: 3934, min_y: -2478, max_y: 2587 };
    let section = full.centered_section();
    // Width 7612 halves to 3806, re-centered at 1903 from the left edge;
    // height 5065 halves to 2532, re-centered at 1266 from the bottom edge.
    assert_eq!(section.min_x, -1775);
    assert_eq!(section.max_x, 2031);
    assert_eq!(section.min_y, -1212);
    assert_eq!(section.max_y, 1320);
}

#[test]
fn centered_section_maps_its_own_bounds_to_the_full_output() {
    let full = SourceRect { min_x: 0, max_x: 4000, min_y: 0, max_y: 4000 };
    let section = full.centered_section();
    assert_eq!(section.min_x, 1000);
    assert_eq!(section.max_x, 3000);
    assert_eq!(section.map(Point { x: 1000, y: 3000 }), Point { x: 0, y: 1000 });
    assert_eq!(section.map(Point { x: 2000, y: 2000 }), Point { x: 500, y: 500 });
    // The full surface's corners clamp to the output corners.
    assert_eq!(section.map(Point { x: 0, y: 4000 }), Point { x: 0, y: 1000 });
}
