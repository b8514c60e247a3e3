use template_matcher::matcher::{ImageMatchFilter, ImageMatchResult, ImageMatcher};

fn accepted(left: u32, top: u32) -> ImageMatchResult {
    ImageMatchResult { left, top, precision: 0 }
}

#[test]
fn collision_is_inclusive_on_both_axes() {
    let filter = ImageMatchFilter::new(5, 5);
    assert!(filter.need_filter(15, 25, &accepted(10, 20)));
    assert!(filter.need_filter(5, 15, &accepted(10, 20)));
    assert!(!filter.need_filter(16, 25, &accepted(10, 20)));
    assert!(!filter.need_filter(15, 26, &accepted(10, 20)));
    assert!(!filter.need_filter(4, 20, &accepted(10, 20)));
}

#[test]
fn collision_near_the_origin_does_not_wrap() {
    let filter = ImageMatchFilter::new(5, 5);
    assert!(filter.need_filter(0, 0, &accepted(3, 4)));
    assert!(filter.need_filter(3, 4, &accepted(0, 0)));
    assert!(!filter.need_filter(0, 0, &accepted(6, 0)));
    let wide = ImageMatchFilter::new(u32::MAX, u32::MAX);
    assert!(wide.need_filter(0, u32::MAX, &accepted(u32::MAX, 0)));
}

#[test]
fn collision_is_symmetric() {
    let filter = ImageMatchFilter::new(3, 7);
    for &(px, py, qx, qy) in &[(10u32, 10u32, 13u32, 17u32), (10, 10, 14, 10), (0, 9, 2, 1), (8, 8, 8, 16)] {
        assert_eq!(
            filter.need_filter(px, py, &accepted(qx, qy)),
            filter.need_filter(qx, qy, &accepted(px, py))
        );
    }
}

#[test]
fn candidate_is_checked_against_every_accepted_match() {
    let filter = ImageMatchFilter::new(5, 5);
    let list = vec![accepted(10, 10), accepted(60, 60)];
    assert!(ImageMatcher::need_filter(12, 8, &list, &filter));
    assert!(ImageMatcher::need_filter(65, 55, &list, &filter));
    assert!(!ImageMatcher::need_filter(30, 30, &list, &filter));
    assert!(!ImageMatcher::need_filter(10, 60, &list, &filter));
    assert!(!ImageMatcher::need_filter(10, 10, &Vec::new(), &filter));
}
