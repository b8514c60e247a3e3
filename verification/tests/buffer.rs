use image::ImageEncoder;
use template_matcher::buffer::ImageBuffer;
use template_matcher::error::MatchError;
use template_matcher::matcher::ImageMatchRegion;

fn colour(width: u32, height: u32) -> ImageBuffer {
    let mut data = Vec::new();
    for y in 0..height {
        for x in 0..width {
            data.push((x % 256) as u8);
            data.push((y % 256) as u8);
            data.push(((x * 7 + y * 13) % 256) as u8);
        }
    }
    ImageBuffer::new(width, height, 3, data).unwrap()
}

fn png_of(width: u32, height: u32, rgb: &[u8]) -> Vec<u8> {
    let mut bytes = Vec::new();
    image::codecs::png::PngEncoder::new(&mut bytes)
        .write_image(rgb, width, height, image::ExtendedColorType::Rgb8)
        .unwrap();
    bytes
}

#[test]
fn buffer_needs_the_bytes_of_every_pixel() {
    assert!(ImageBuffer::new(4, 3, 3, vec![0; 36]).is_some());
    assert!(ImageBuffer::new(4, 3, 1, vec![0; 12]).is_some());
    assert!(ImageBuffer::new(4, 3, 3, vec![0; 35]).is_none());
    assert!(ImageBuffer::new(4, 3, 3, vec![0; 37]).is_none());
    assert!(ImageBuffer::new(4, 3, 1, vec![0; 36]).is_none());
    assert!(ImageBuffer::new(4, 3, 2, vec![0; 24]).is_none());
    assert!(ImageBuffer::new(4, 3, 4, vec![0; 48]).is_none());
    assert!(ImageBuffer::new(4, 3, 0, Vec::new()).is_none());
    assert!(ImageBuffer::new(0, 0, 3, Vec::new()).is_some());
}

#[test]
fn buffer_hands_out_what_it_was_made_of() {
    let b = ImageBuffer::new(2, 1, 3, vec![1, 2, 3, 4, 5, 6]).unwrap();
    assert_eq!(b.width(), 2);
    assert_eq!(b.height(), 1);
    assert_eq!(b.channels(), 3);
    assert_eq!(b.data(), &vec![1, 2, 3, 4, 5, 6]);
    let copy = b.duplicate();
    assert_eq!(copy.width(), 2);
    assert_eq!(copy.height(), 1);
    assert_eq!(copy.channels(), 3);
    assert_eq!(copy.data(), b.data());
}

#[test]
fn grey_value_weighs_red_green_and_blue() {
    let b = ImageBuffer::new(
        6,
        1,
        3,
        vec![255, 0, 0, 0, 255, 0, 0, 0, 255, 255, 255, 255, 0, 0, 0, 10, 200, 30],
    )
    .unwrap();
    let gray = b.to_gray();
    assert_eq!(gray.width(), 6);
    assert_eq!(gray.height(), 1);
    assert_eq!(gray.channels(), 1);
    assert_eq!(gray.data(), &vec![76, 150, 29, 255, 0, 124]);
}

#[test]
fn grey_image_stays_as_it_is() {
    let b = ImageBuffer::new(3, 1, 1, vec![9, 8, 7]).unwrap();
    let gray = b.to_gray();
    assert_eq!(gray.channels(), 1);
    assert_eq!(gray.data(), &vec![9, 8, 7]);
}

#[test]
fn crop_counts_from_the_corner_of_the_region() {
    let screen = colour(100, 100);
    let cut = screen.crop(ImageMatchRegion::region(20, 30, 50, 50)).unwrap();
    assert_eq!(cut.width(), 50);
    assert_eq!(cut.height(), 50);
    assert_eq!(cut.channels(), 3);
    assert_eq!(&cut.data()[0..3], &[20, 30, ((20 * 7 + 30 * 13) % 256) as u8]);
    for &(x, y) in &[(0usize, 0usize), (49, 0), (0, 49), (49, 49), (17, 31)] {
        let local = (y * 50 + x) * 3;
        let absolute = ((y + 30) * 100 + x + 20) * 3;
        assert_eq!(&cut.data()[local..local + 3], &screen.data()[absolute..absolute + 3]);
    }
}

#[test]
fn crop_of_the_whole_image_is_the_image() {
    let screen = colour(7, 5);
    let cut = screen.crop(ImageMatchRegion::region(0, 0, 7, 5)).unwrap();
    assert_eq!(cut.data(), screen.data());
}

#[test]
fn crop_of_a_grey_image_keeps_one_byte_per_pixel() {
    let b = ImageBuffer::new(3, 3, 1, vec![1, 2, 3, 4, 5, 6, 7, 8, 9]).unwrap();
    let cut = b.crop(ImageMatchRegion::region(1, 1, 2, 2)).unwrap();
    assert_eq!(cut.channels(), 1);
    assert_eq!(cut.data(), &vec![5, 6, 8, 9]);
}

#[test]
fn crop_rejects_an_empty_region() {
    let screen = colour(10, 10);
    let empty = ImageMatchRegion { left: 1, top: 1, width: 0, height: 4 };
    assert!(matches!(screen.crop(empty), Err(MatchError::InvalidConfiguration)));
    let flat = ImageMatchRegion { left: 1, top: 1, width: 4, height: 0 };
    assert!(matches!(screen.crop(flat), Err(MatchError::InvalidConfiguration)));
}

#[test]
fn crop_rejects_a_region_that_leaves_the_image() {
    let screen = colour(10, 10);
    assert!(screen.crop(ImageMatchRegion::region(5, 5, 5, 5)).is_ok());
    assert!(matches!(
        screen.crop(ImageMatchRegion::region(5, 5, 6, 5)),
        Err(MatchError::InvalidConfiguration)
    ));
    assert!(matches!(
        screen.crop(ImageMatchRegion::region(5, 5, 5, 6)),
        Err(MatchError::InvalidConfiguration)
    ));
    assert!(matches!(
        screen.crop(ImageMatchRegion::region(u32::MAX, 0, u32::MAX, 1)),
        Err(MatchError::InvalidConfiguration)
    ));
}

#[test]
fn resize_keeps_the_proportions() {
    let b = colour(100, 50);
    let small = b.resize(30).unwrap();
    assert_eq!((small.width(), small.height(), small.channels()), (30, 15, 3));
    assert_eq!(small.data().len(), 30 * 15 * 3);
    let large = b.resize(250).unwrap();
    assert_eq!((large.width(), large.height()), (250, 125));
    assert_eq!(large.data().len(), 250 * 125 * 3);
}

#[test]
fn resize_rounds_the_height_to_the_nearest_and_a_half_up() {
    assert_eq!(colour(4, 3).resize(2).unwrap().height(), 2);
    assert_eq!(colour(3, 1).resize(4).unwrap().height(), 1);
    assert_eq!(colour(3, 1).resize(5).unwrap().height(), 2);
    assert_eq!(colour(7, 10).resize(3).unwrap().height(), 4);
}

#[test]
fn resize_to_the_same_width_keeps_the_pixels() {
    let b = colour(9, 4);
    let same = b.resize(9).unwrap();
    assert_eq!((same.width(), same.height()), (9, 4));
    assert_eq!(same.data(), b.data());
}

#[test]
fn resize_resamples_the_pixels() {
    let mut data = Vec::new();
    for _ in 0..4 * 4 {
        data.extend_from_slice(&[200, 100, 50]);
    }
    let flat = ImageBuffer::new(4, 4, 3, data).unwrap();
    let large = flat.resize(8).unwrap();
    assert_eq!((large.width(), large.height()), (8, 8));
    assert!(large.data().chunks(3).all(|p| p == [200, 100, 50]));
}

#[test]
fn resize_of_a_grey_image_is_grey() {
    let b = ImageBuffer::new(4, 2, 1, vec![80; 8]).unwrap();
    let large = b.resize(8).unwrap();
    assert_eq!((large.width(), large.height(), large.channels()), (8, 4, 1));
    assert_eq!(large.data(), &vec![80; 32]);
}

#[test]
fn resize_rejects_width_zero_an_empty_image_and_a_vanishing_height() {
    assert!(matches!(colour(4, 4).resize(0), Err(MatchError::InvalidConfiguration)));
    let empty = ImageBuffer::new(0, 0, 3, Vec::new()).unwrap();
    assert!(matches!(empty.resize(4), Err(MatchError::InvalidConfiguration)));
    assert!(matches!(colour(100, 1).resize(10), Err(MatchError::InvalidConfiguration)));
    assert!(matches!(colour(1, 3).resize(u32::MAX), Err(MatchError::InvalidConfiguration)));
}

#[test]
fn decode_reads_a_png() {
    let source = colour(5, 4);
    let bytes = png_of(5, 4, source.data());
    let decoded = ImageBuffer::decode(&bytes).unwrap();
    assert_eq!((decoded.width(), decoded.height(), decoded.channels()), (5, 4, 3));
    assert_eq!(decoded.data(), source.data());
}

#[test]
fn decode_turns_a_grey_png_into_colour() {
    let mut bytes = Vec::new();
    image::codecs::png::PngEncoder::new(&mut bytes)
        .write_image(&[10, 20, 30, 40], 2, 2, image::ExtendedColorType::L8)
        .unwrap();
    let decoded = ImageBuffer::decode(&bytes).unwrap();
    assert_eq!((decoded.width(), decoded.height(), decoded.channels()), (2, 2, 3));
    assert_eq!(decoded.data(), &vec![10, 10, 10, 20, 20, 20, 30, 30, 30, 40, 40, 40]);
}

#[test]
fn decode_rejects_what_is_no_image() {
    assert!(matches!(ImageBuffer::decode(b"no image at all"), Err(MatchError::DecodeError(_))));
    assert!(matches!(ImageBuffer::decode(&[]), Err(MatchError::DecodeError(_))));
    let mut cut = png_of(5, 4, colour(5, 4).data());
    cut.truncate(20);
    assert!(matches!(ImageBuffer::decode(&cut), Err(MatchError::DecodeError(_))));
}

#[test]
fn decoded_pixels_must_match_the_size() {
    assert!(ImageBuffer::from_decoded(2, 2, vec![0; 12]).is_ok());
    match ImageBuffer::from_decoded(2, 2, vec![0; 11]) {
        Err(MatchError::DecodeError(text)) => {
            assert_eq!(text, "pixel data does not match the image size")
        }
        other => panic!("unexpected: {:?}", other),
    }
}

#[test]
fn resize_to_a_smaller_width_averages_the_pixels() {
    let mut data = Vec::new();
    for y in 0..2u8 {
        for x in 0..4u8 {
            let v = 10 + 10 * (x % 2) + 20 * y + 100 * (x / 2);
            data.extend_from_slice(&[v, v + 1, v + 2]);
        }
    }
    let b = ImageBuffer::new(4, 2, 3, data).unwrap();
    let small = b.resize(2).unwrap();
    assert_eq!((small.width(), small.height(), small.channels()), (2, 1, 3));
    assert_eq!(small.data(), &vec![25, 26, 27, 125, 126, 127]);
    let grey = ImageBuffer::new(4, 2, 1, vec![10, 20, 110, 120, 30, 40, 130, 140]).unwrap();
    let small = grey.resize(2).unwrap();
    assert_eq!((small.width(), small.height(), small.channels()), (2, 1, 1));
    assert_eq!(small.data(), &vec![25, 125]);
}
