use koharu::buffer::ImageBuf;
use koharu::buffer::MaskBuf;
use koharu::extract::InpaintConfig;
use koharu::extract::prepare_region;
use koharu::geometry::BBox;
use koharu::reconcile::finish_region;
use koharu::reconcile::reconcile_output;

#[test]
fn matching_output_passes_through() {
    let pixels: Vec<u8> = (0..4 * 6 * 4).map(|i| (i % 251) as u8).collect();
    let r = reconcile_output(pixels.clone(), 4, 6, 4, 6);
    assert_eq!(r, pixels);
}

#[test]
fn narrower_output_is_resampled_to_exact_size() {
    // The collaborator answers 2 pixels narrower than requested: the
    // reconciler resamples up to the exact width and the byte length
    // matches width*height*4 exactly.
    let pixels = red_rgba(98, 100);
    let r = reconcile_output(pixels, 98, 100, 100, 100);
    assert_eq!(r.len(), 100 * 100 * 4);
    // The resample reaches the last pixel: its alpha is opaque, where a
    // plain zero-pad would have left it zero.
    assert_ne!(r[100 * 100 * 4 - 1], 0);
}

#[test]
fn short_buffer_is_zero_padded() {
    let r = reconcile_output(vec![7u8; 5], 10, 10, 10, 10);
    assert_eq!(r.len(), 400);
    assert_eq!(&r[..5], &[7, 7, 7, 7, 7]);
    assert!(r[5..].iter().all(|&v| v == 0));
}

#[test]
fn long_buffer_is_truncated() {
    let r = reconcile_output(vec![9u8; 500], 10, 10, 10, 10);
    assert_eq!(r.len(), 400);
    assert!(r.iter().all(|&v| v == 9));
}

#[test]
fn inconsistent_buffer_still_gets_exact_length() {
    // The reported dimensions disagree with the buffer, so no resample can
    // run; the length is still forced to the expected value.
    let r = reconcile_output(vec![3u8; 123], 98, 100, 10, 10);
    assert_eq!(r.len(), 400);
}

#[test]
fn zero_expected_size_gives_empty_buffer() {
    let r = reconcile_output(vec![1u8; 64], 4, 4, 0, 0);
    assert_eq!(r.len(), 0);
}

#[test]
fn finish_region_assembles_the_region() {
    let img = gray_image(64, 64);
    let mask = MaskBuf::new(vec![255u8; 64 * 64], 64, 64).unwrap();
    let bbox = BBox { xmin: 20, ymin: 20, xmax: 40, ymax: 40 };
    let cfg = InpaintConfig { padding: 4, mask_erosion: 0, ..InpaintConfig::default() };
    let prep = prepare_region(&img, &mask, &bbox, &cfg).unwrap();
    let mask_bytes = prep.mask_crop.data.clone();
    // The collaborator answers 26x26 where 28x28 was asked.
    let region = finish_region(prep, red_rgba(26, 26), 26, 26);
    assert_eq!((region.x, region.y), (16, 16));
    assert_eq!((region.width, region.height), (28, 28));
    assert_eq!(region.image.len(), 28 * 28 * 4);
    assert_eq!((region.mask_width, region.mask_height), (28, 28));
    assert_eq!(region.mask, mask_bytes);
    assert_eq!(region.padded_bbox, BBox { xmin: 16, ymin: 16, xmax: 44, ymax: 44 });
}

fn red_rgba(w: u32, h: u32) -> Vec<u8> {
    let mut v = Vec::with_capacity((w * h * 4) as usize);
    for _ in 0..w * h {
        v.extend_from_slice(&[255, 0, 0, 255]);
    }
    v
}

fn gray_image(w: u32, h: u32) -> ImageBuf {
    ImageBuf::new(vec![128u8; (w * h * 4) as usize], w, h).unwrap()
}
