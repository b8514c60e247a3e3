use template_matcher::buffer::ImageBuffer;
use template_matcher::error::MatchError;
use template_matcher::matcher::{
    ImageMatchFilter, ImageMatchRegion, ImageMatchResult, ImageMatchResults, ImageMatcher,
};
use template_matcher::pipeline::{MatchStep, PendingMatch, Preprocessing};
use template_matcher::surface::Surface;

const ONE: f64 = 1_000_000.0;

fn scale(score: f64) -> i32 {
    (score * ONE).round() as i32
}

fn texture(x: u32, y: u32) -> u8 {
    let mut h = x.wrapping_mul(0x9E37_79B1) ^ y.wrapping_mul(0x85EB_CA77);
    h ^= h >> 15;
    h = h.wrapping_mul(0x2C1B_3C6D);
    h ^= h >> 12;
    (h % 256) as u8
}

fn uniform(width: u32, height: u32, value: u8) -> Vec<u8> {
    vec![value; (width * height * 3) as usize]
}

fn patch() -> ImageBuffer {
    let mut data = Vec::new();
    for y in 0..10 {
        for x in 0..10 {
            let v = texture(x, y);
            data.extend_from_slice(&[v, v, v]);
        }
    }
    ImageBuffer::new(10, 10, 3, data).unwrap()
}

fn paste(data: &mut Vec<u8>, width: u32, left: u32, top: u32, noise: i32) {
    for y in 0..10u32 {
        for x in 0..10u32 {
            let shift = if (x + y) % 2 == 0 { noise } else { -noise };
            let v = (texture(x, y) as i32 + shift).clamp(0, 255) as u8;
            let at = (((top + y) * width + left + x) * 3) as usize;
            data[at..at + 3].copy_from_slice(&[v, v, v]);
        }
    }
}

fn target_with_patches(at: &[(u32, u32)], noise: i32) -> ImageBuffer {
    let mut data = uniform(100, 100, 128);
    for &(left, top) in at {
        paste(&mut data, 100, left, top, noise);
    }
    ImageBuffer::new(100, 100, 3, data).unwrap()
}

fn correlate(pending: &PendingMatch) -> Surface {
    let target = pending.target();
    let template = pending.template();
    assert_eq!(target.channels(), 1);
    assert_eq!(template.channels(), 1);
    let (tw, th) = (template.width() as usize, template.height() as usize);
    let (w, h) = (target.width() as usize, target.height() as usize);
    let n = (tw * th) as f64;
    let t_mean = template.data().iter().map(|&v| v as f64).sum::<f64>() / n;
    let t_dev: f64 = template.data().iter().map(|&v| (v as f64 - t_mean).powi(2)).sum();
    let cols = w - tw + 1;
    let rows = h - th + 1;
    let mut scores = Vec::with_capacity(cols * rows);
    for y in 0..rows {
        for x in 0..cols {
            let mut sum = 0.0;
            for j in 0..th {
                for i in 0..tw {
                    sum += target.data()[(y + j) * w + x + i] as f64;
                }
            }
            let mean = sum / n;
            let mut cross = 0.0;
            let mut dev = 0.0;
            for j in 0..th {
                for i in 0..tw {
                    let a = target.data()[(y + j) * w + x + i] as f64 - mean;
                    let b = template.data()[j * tw + i] as f64 - t_mean;
                    cross += a * b;
                    dev += a * a;
                }
            }
            let denominator = (dev * t_dev).sqrt();
            scores.push(if denominator == 0.0 { 0 } else { scale(cross / denominator) });
        }
    }
    Surface::new(cols as u32, rows as u32, scores).unwrap()
}

fn run(
    matcher: &ImageMatcher,
    target: ImageBuffer,
    precision: f64,
    region: Option<ImageMatchRegion>,
    filter: Option<ImageMatchFilter>,
) -> ImageMatchResults {
    match matcher.start_matching(target, scale(precision), region, filter).unwrap() {
        MatchStep::Finished(results) => results,
        MatchStep::Correlate(pending) => {
            let surface = correlate(&pending);
            pending.finish(Ok(surface)).unwrap()
        }
    }
}

#[test]
fn template_matches_itself_once_at_the_origin() {
    let matcher = ImageMatcher::new(patch(), true, None).unwrap();
    for &precision in &[1.0, 0.9, 0.0, -1.0] {
        let results = run(&matcher, patch(), precision, None, None);
        assert_eq!((results.width, results.height), (10, 10));
        assert_eq!(results.list, vec![ImageMatchResult { left: 0, top: 0, precision: 1_000_000 }]);
    }
}

#[test]
fn template_larger_than_the_target_gives_no_match_and_no_correlation() {
    let matcher = ImageMatcher::new(patch(), true, None).unwrap();
    for &(w, h) in &[(9u32, 10u32), (10, 9), (9, 100), (100, 9), (1, 1)] {
        let target = ImageBuffer::new(w, h, 3, uniform(w, h, 7)).unwrap();
        match matcher.start_matching(target, scale(0.9), None, None).unwrap() {
            MatchStep::Finished(results) => {
                assert_eq!((results.width, results.height), (10, 10));
                assert!(results.list.is_empty());
                assert!(results.first().is_none());
            }
            MatchStep::Correlate(_) => panic!("nothing to correlate"),
        }
    }
    let target = ImageBuffer::new(10, 10, 3, uniform(10, 10, 7)).unwrap();
    assert!(matches!(
        matcher.start_matching(target, scale(0.9), None, None).unwrap(),
        MatchStep::Correlate(_)
    ));
}

#[test]
fn region_can_make_the_target_too_small() {
    let matcher = ImageMatcher::new(patch(), true, None).unwrap();
    let target = target_with_patches(&[(20, 30)], 0);
    let region = ImageMatchRegion::region(20, 30, 9, 50);
    match matcher.start_matching(target, scale(0.9), Some(region), None).unwrap() {
        MatchStep::Finished(results) => {
            assert_eq!((results.width, results.height), (10, 10));
            assert!(results.list.is_empty());
        }
        MatchStep::Correlate(_) => panic!("nothing to correlate"),
    }
}

#[test]
fn patch_on_a_uniform_target_is_found_once() {
    let matcher = ImageMatcher::new(patch(), true, None).unwrap();
    let results = run(&matcher, target_with_patches(&[(20, 30)], 0), 0.9, None, None);
    assert_eq!((results.width, results.height), (10, 10));
    assert_eq!(results.list.len(), 1);
    let first = results.first().unwrap();
    assert_eq!((first.left, first.top), (20, 30));
    assert!(first.precision >= scale(0.9));
    assert_eq!(first.precision, 1_000_000);
}

#[test]
fn noisy_patch_does_not_reach_a_high_threshold() {
    let matcher = ImageMatcher::new(patch(), true, None).unwrap();
    let results = run(&matcher, target_with_patches(&[(20, 30)], 25), 0.99, None, None);
    assert!(results.list.is_empty());
    let results = run(&matcher, target_with_patches(&[(20, 30)], 25), 0.5, None, None);
    assert_eq!(results.list.len(), 1);
    assert_eq!((results.list[0].left, results.list[0].top), (20, 30));
    assert!(results.list[0].precision < scale(0.99));
}

#[test]
fn match_in_a_region_is_reported_relative_to_the_region() {
    let matcher = ImageMatcher::new(patch(), true, None).unwrap();
    let target = target_with_patches(&[(20, 30)], 0);
    let region = ImageMatchRegion::region(20, 30, 50, 50);
    let results = run(&matcher, target, 0.9, Some(region), None);
    assert_eq!(results.list.len(), 1);
    assert_eq!((results.list[0].left, results.list[0].top), (0, 0));
    let target = target_with_patches(&[(20, 30)], 0);
    let region = ImageMatchRegion::region(15, 22, 60, 60);
    let results = run(&matcher, target, 0.9, Some(region), None);
    assert_eq!(results.list.len(), 1);
    assert_eq!((results.list[0].left, results.list[0].top), (5, 8));
}

#[test]
fn two_copies_are_two_matches() {
    let matcher = ImageMatcher::new(patch(), true, None).unwrap();
    let target = target_with_patches(&[(10, 10), (60, 60)], 0);
    let results = run(&matcher, target, 0.9, None, Some(ImageMatchFilter::new(5, 5)));
    assert_eq!(
        results.list,
        vec![
            ImageMatchResult { left: 10, top: 10, precision: 1_000_000 },
            ImageMatchResult { left: 60, top: 60, precision: 1_000_000 },
        ]
    );
}

#[test]
fn pending_match_describes_the_correlation() {
    let matcher = ImageMatcher::new(patch(), true, None).unwrap();
    let target = target_with_patches(&[(20, 30)], 0);
    let region = ImageMatchRegion::region(10, 20, 40, 30);
    match matcher.start_matching(target, 123, Some(region), None).unwrap() {
        MatchStep::Correlate(pending) => {
            assert_eq!(pending.template().data(), matcher.template().data());
            assert_eq!((pending.target().width(), pending.target().height()), (40, 30));
            assert_eq!(pending.target().channels(), 1);
            assert_eq!((pending.surface_cols(), pending.surface_rows()), (31, 21));
            assert_eq!(pending.precision(), 123);
            assert_eq!(pending.filter(), ImageMatchFilter::new(5, 5));
            assert_eq!(
                pending.steps(),
                Preprocessing { grayscale: true, equalize: false, blur: false }
            );
        }
        MatchStep::Finished(_) => panic!("the template fits"),
    }
}

#[test]
fn colour_matcher_keeps_colour() {
    let matcher = ImageMatcher::new(patch(), false, None).unwrap();
    assert!(!matcher.use_gray());
    assert_eq!(matcher.template().channels(), 3);
    let target = target_with_patches(&[(20, 30)], 0);
    match matcher.start_matching(target, 0, None, Some(ImageMatchFilter::new(1, 2))).unwrap() {
        MatchStep::Correlate(pending) => {
            assert_eq!(pending.target().channels(), 3);
            assert_eq!(pending.filter(), ImageMatchFilter::new(1, 2));
            assert_eq!(
                pending.steps(),
                Preprocessing { grayscale: false, equalize: false, blur: false }
            );
        }
        MatchStep::Finished(_) => panic!("the template fits"),
    }
}

#[test]
fn images_of_different_formats_are_rejected() {
    let matcher = ImageMatcher::new(patch(), false, None).unwrap();
    let grey = ImageBuffer::new(20, 20, 1, vec![0; 400]).unwrap();
    assert!(matches!(
        matcher.start_matching(grey, 0, None, None),
        Err(MatchError::InvalidConfiguration)
    ));
}

#[test]
fn bad_regions_are_rejected() {
    let matcher = ImageMatcher::new(patch(), true, None).unwrap();
    let empty = ImageMatchRegion { left: 0, top: 0, width: 0, height: 10 };
    assert!(matches!(
        matcher.start_matching(target_with_patches(&[], 0), 0, Some(empty), None),
        Err(MatchError::InvalidConfiguration)
    ));
    let outside = ImageMatchRegion::region(60, 60, 41, 40);
    assert!(matches!(
        matcher.start_matching(target_with_patches(&[], 0), 0, Some(outside), None),
        Err(MatchError::InvalidConfiguration)
    ));
}

#[test]
fn matcher_rejects_a_template_without_pixels_and_a_resize_to_nothing() {
    let empty = ImageBuffer::new(0, 0, 3, Vec::new()).unwrap();
    assert!(matches!(ImageMatcher::new(empty, true, None), Err(MatchError::InvalidConfiguration)));
    assert!(matches!(
        ImageMatcher::new(patch(), true, Some(0)),
        Err(MatchError::InvalidConfiguration)
    ));
}

#[test]
fn matcher_resizes_its_template() {
    let matcher = ImageMatcher::new(patch(), true, Some(20)).unwrap();
    assert_eq!((matcher.template().width(), matcher.template().height()), (20, 20));
    assert_eq!(matcher.template().channels(), 1);
    let results = run(&matcher, target_with_patches(&[], 0), 2.0, None, None);
    assert_eq!((results.width, results.height), (20, 20));
    assert!(results.list.is_empty());
    let same = ImageMatcher::new(patch(), true, Some(10)).unwrap();
    assert_eq!(same.template().data(), patch().to_gray().data());
}

#[test]
fn failure_of_the_primitive_is_passed_on() {
    let matcher = ImageMatcher::new(patch(), true, None).unwrap();
    let step = matcher.start_matching(target_with_patches(&[], 0), 0, None, None).unwrap();
    let pending = match step {
        MatchStep::Correlate(p) => p,
        MatchStep::Finished(_) => panic!("the template fits"),
    };
    match pending.finish(Err("numeric fault".to_string())) {
        Err(MatchError::PrimitiveFailure(cause)) => assert_eq!(cause, "numeric fault"),
        other => panic!("unexpected: {:?}", other),
    }
}

#[test]
fn surface_of_the_wrong_size_is_a_failure_of_the_primitive() {
    let matcher = ImageMatcher::new(patch(), true, None).unwrap();
    for &(cols, rows) in &[(90u32, 91u32), (91, 90), (100, 100), (1, 1)] {
        let step = matcher.start_matching(target_with_patches(&[], 0), 0, None, None).unwrap();
        let pending = match step {
            MatchStep::Correlate(p) => p,
            MatchStep::Finished(_) => panic!("the template fits"),
        };
        let surface = Surface::new(cols, rows, vec![0; (cols * rows) as usize]).unwrap();
        match pending.finish(Ok(surface)) {
            Err(MatchError::PrimitiveFailure(cause)) => {
                assert_eq!(cause, "surface size does not match the images")
            }
            other => panic!("unexpected: {:?}", other),
        }
    }
}

#[test]
fn helpers_leave_an_image_alone_where_nothing_is_asked() {
    let img = ImageMatcher::resize_template(patch(), None).unwrap();
    assert_eq!(img.data(), patch().data());
    let img = ImageMatcher::gray_image(patch(), false);
    assert_eq!(img.data(), patch().data());
    let img = ImageMatcher::crop_target(patch(), None).unwrap();
    assert_eq!(img.data(), patch().data());
    let img = ImageMatcher::gray_image(patch(), true);
    assert_eq!(img.channels(), 1);
    let img = ImageMatcher::crop_target(patch(), Some(ImageMatchRegion::region(2, 3, 4, 5))).unwrap();
    assert_eq!((img.width(), img.height()), (4, 5));
    let img = ImageMatcher::resize_template(patch(), Some(5)).unwrap();
    assert_eq!((img.width(), img.height()), (5, 5));
}

#[test]
fn results_hand_out_their_first_match() {
    let list = vec![
        ImageMatchResult { left: 3, top: 4, precision: 9 },
        ImageMatchResult { left: 1, top: 2, precision: 8 },
    ];
    let results = ImageMatchResults::new(10, 12, list);
    assert_eq!((results.width, results.height), (10, 12));
    assert_eq!(results.first(), Some(&ImageMatchResult { left: 3, top: 4, precision: 9 }));
    assert_eq!(ImageMatchResults::new(1, 1, Vec::new()).first(), None);
}

#[test]
fn region_keeps_its_corner_and_size() {
    let r = ImageMatchRegion::region(20, 30, 50, 40);
    assert_eq!((r.left, r.top, r.width, r.height), (20, 30, 50, 40));
}

fn large_patch(size: u32) -> ImageBuffer {
    let mut data = Vec::new();
    for y in 0..size {
        for x in 0..size {
            let v = texture(x + 100, y + 100);
            data.extend_from_slice(&[v, v, v]);
        }
    }
    ImageBuffer::new(size, size, 3, data).unwrap()
}

fn target_with_large_patches(side: u32, size: u32, at: &[(u32, u32)]) -> ImageBuffer {
    let mut data = uniform(side, side, 128);
    for &(left, top) in at {
        for y in 0..size {
            for x in 0..size {
                let v = texture(x + 100, y + 100);
                let i = (((top + y) * side + left + x) * 3) as usize;
                data[i..i + 3].copy_from_slice(&[v, v, v]);
            }
        }
    }
    ImageBuffer::new(side, side, 3, data).unwrap()
}

#[test]
fn two_copies_of_a_large_template_are_two_matches() {
    let matcher = ImageMatcher::new(large_patch(48), true, None).unwrap();
    let target = target_with_large_patches(108, 48, &[(10, 10), (60, 60)]);
    let results = run(&matcher, target, 0.9, None, Some(ImageMatchFilter::new(5, 5)));
    assert_eq!((results.width, results.height), (48, 48));
    assert_eq!(
        results.list,
        vec![
            ImageMatchResult { left: 10, top: 10, precision: 1_000_000 },
            ImageMatchResult { left: 60, top: 60, precision: 1_000_000 },
        ]
    );
}
