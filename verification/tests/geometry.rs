use template_matcher::geometry::{clamp_rect, Rect};

fn rect(x: i64, y: i64, width: i64, height: i64) -> Rect {
    Rect { x, y, width, height }
}

#[test]
fn rectangle_inside_the_grid_is_kept() {
    assert_eq!(clamp_rect(rect(3, 4, 5, 6), 20, 30), rect(3, 4, 5, 6));
    assert_eq!(clamp_rect(rect(0, 0, 20, 30), 20, 30), rect(0, 0, 20, 30));
}

#[test]
fn negative_origin_is_moved_to_zero() {
    assert_eq!(clamp_rect(rect(-7, -1, 5, 6), 20, 30), rect(0, 0, 5, 6));
}

#[test]
fn origin_beyond_the_grid_is_moved_to_the_last_cell() {
    assert_eq!(clamp_rect(rect(25, 99, 5, 6), 20, 30), rect(19, 29, 1, 1));
}

#[test]
fn extent_is_cut_at_the_far_border() {
    assert_eq!(clamp_rect(rect(15, 28, 10, 10), 20, 30), rect(15, 28, 5, 2));
}

#[test]
fn extent_is_at_least_one() {
    assert_eq!(clamp_rect(rect(2, 3, 0, -4), 20, 30), rect(2, 3, 1, 1));
}

#[test]
fn single_cell_grid_leaves_one_cell() {
    assert_eq!(clamp_rect(rect(-5, 7, 100, 0), 1, 1), rect(0, 0, 1, 1));
}

#[test]
fn clamping_twice_changes_nothing() {
    let once = clamp_rect(rect(-3, 40, 50, 2), 20, 30);
    assert_eq!(clamp_rect(once, 20, 30), once);
}
