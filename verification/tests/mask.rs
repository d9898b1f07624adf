use koharu::buffer::MaskBuf;
use koharu::mask::clean_mask;
use koharu::mask::crop_mask_clamped;
use koharu::mask::dilate_mask;
use koharu::mask::erode_mask;
use koharu::mask::invert_mask;
use koharu::mask::resize_mask_nearest;
use koharu::mask::threshold_mask;

fn mask(data: Vec<u8>, w: u32, h: u32) -> MaskBuf {
    MaskBuf::new(data, w, h).unwrap()
}

#[test]
fn mask_buf_checks_length() {
    assert!(MaskBuf::new(vec![0u8; 24], 4, 6).is_ok());
    assert!(MaskBuf::new(vec![0u8; 23], 4, 6).is_err());
}

#[test]
fn threshold_zeroes_below_only() {
    let m = mask(vec![0, 29, 30, 31, 255], 5, 1);
    let t = threshold_mask(&m, 30);
    assert_eq!(t.data, vec![0, 0, 30, 31, 255]);
}

#[test]
fn invert_complements_every_byte() {
    let m = mask(vec![0, 1, 128, 255], 2, 2);
    let inv = invert_mask(&m);
    assert_eq!(inv.data, vec![255, 254, 127, 0]);
}

#[test]
fn dilate_grows_single_pixel_to_square() {
    let mut data = vec![0u8; 25];
    data[2 * 5 + 2] = 255;
    let m = mask(data, 5, 5);
    let d = dilate_mask(&m, 1);
    let mut expected = vec![0u8; 25];
    for y in 1..=3 {
        for x in 1..=3 {
            expected[y * 5 + x] = 255;
        }
    }
    assert_eq!(d.data, expected);
}

#[test]
fn dilate_all_background_tiny_mask_saturates() {
    // No foreground at all and width + height <= k: imageproc's distance
    // field keeps its initialization value `width + height`, which clears
    // the threshold, and the whole mask comes out white.
    let tiny = mask(vec![0, 0], 2, 1);
    let d = dilate_mask(&tiny, 3);
    assert_eq!(d.data, vec![255, 255]);
    // With k below width + height the all-background mask stays black.
    let small = mask(vec![0u8; 25], 5, 5);
    assert_eq!(dilate_mask(&small, 1).data, vec![0u8; 25]);
    // And eroding an all-white mask that tiny blacks it out entirely.
    let white = mask(vec![255, 255], 2, 1);
    assert_eq!(erode_mask(&white, 3).data, vec![0, 0]);
}

#[test]
fn erode_shrinks_foreground_around_hole() {
    // All white with one background pixel in the middle: eroding by one
    // pixel (invert, dilate, invert) blacks out its Chebyshev neighborhood.
    let mut data = vec![255u8; 25];
    data[2 * 5 + 2] = 0;
    let m = mask(data, 5, 5);
    let e = erode_mask(&m, 1);
    let mut expected = vec![255u8; 25];
    for y in 1..=3 {
        for x in 1..=3 {
            expected[y * 5 + x] = 0;
        }
    }
    assert_eq!(e.data, expected);
}

#[test]
fn clean_mask_closes_and_binarizes() {
    // A lone bright pixel in a 5x5 mask: the square dilation floods the
    // whole tile with its value, and the one-pixel erosion, finding no
    // background left, maps everything to full white.
    let mut data = vec![0u8; 25];
    data[2 * 5 + 2] = 200;
    let m = mask(data, 5, 5);
    let cleaned = clean_mask(&m);
    assert_eq!(cleaned.data, vec![255u8; 25]);
    // An all-background mask stays background.
    let empty = mask(vec![0u8; 25], 5, 5);
    assert_eq!(clean_mask(&empty).data, vec![0u8; 25]);
}

#[test]
fn resize_nearest_changes_size_and_keeps_values() {
    let m = mask(vec![10, 20, 30, 40], 2, 2);
    let r = resize_mask_nearest(&m, 4, 4);
    assert_eq!(r.width, 4);
    assert_eq!(r.height, 4);
    assert_eq!(r.data.len(), 16);
    for v in &r.data {
        assert!([10u8, 20, 30, 40].contains(v));
    }
    // Resizing to the source size is a plain copy.
    let same = resize_mask_nearest(&m, 2, 2);
    assert_eq!(same.data, vec![10, 20, 30, 40]);
}

#[test]
fn crop_clamps_out_of_range_samples() {
    let m = mask(vec![1, 2, 3, 4, 5, 6, 7, 8, 9], 3, 3);
    let c = crop_mask_clamped(&m, 2, 2, 2, 2);
    assert_eq!(c.data, vec![9, 9, 9, 9]);
    let inside = crop_mask_clamped(&m, 1, 0, 2, 2);
    assert_eq!(inside.data, vec![2, 3, 5, 6]);
}
