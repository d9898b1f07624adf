use koharu::error::CommandError;
use koharu::geometry::BBox;
use koharu::geometry::clamp_bbox_to_image;
use koharu::geometry::pad_and_clamp;
use koharu::geometry::to_mask_space;

#[test]
fn pad_and_clamp_scenario() {
    // Source image 1000x800, bbox [100,100,200,150], padding 50.
    let r = BBox { xmin: 100, ymin: 100, xmax: 200, ymax: 150 };
    let padded = pad_and_clamp(&r, 50, 1000, 800).unwrap();
    assert_eq!(padded, BBox { xmin: 50, ymin: 50, xmax: 250, ymax: 200 });
    assert_eq!(padded.xmax - padded.xmin, 200);
    assert_eq!(padded.ymax - padded.ymin, 150);
}

#[test]
fn pad_and_clamp_clamps_to_image() {
    let r = BBox { xmin: 10, ymin: 10, xmax: 90, ymax: 90 };
    let padded = pad_and_clamp(&r, 30, 100, 100).unwrap();
    assert_eq!(padded, BBox { xmin: 0, ymin: 0, xmax: 100, ymax: 100 });
}

#[test]
fn pad_never_shrinks_within_bounds() {
    let r = BBox { xmin: 10, ymin: 10, xmax: 20, ymax: 20 };
    let padded = pad_and_clamp(&r, 5, 100, 100).unwrap();
    assert!(padded.xmin <= r.xmin && padded.ymin <= r.ymin);
    assert!(padded.xmax >= r.xmax && padded.ymax >= r.ymax);
}

#[test]
fn pad_and_clamp_degenerate_is_geometry_error() {
    // A rectangle entirely left of the image collapses after clamping.
    let r = BBox { xmin: -50, ymin: -50, xmax: -10, ymax: -10 };
    assert!(matches!(pad_and_clamp(&r, 5, 100, 100), Err(CommandError::Geometry)));
    // Degenerate input stays degenerate whatever the padding does on one axis.
    let z = BBox { xmin: 10, ymin: 10, xmax: 10, ymax: 20 };
    assert!(pad_and_clamp(&z, 0, 100, 100).is_err());
}

#[test]
fn mask_space_scenario() {
    // Mask 1024x1024, source 1000x800, padded bbox [50,50,250,200]:
    // scale_x = 1.024 and scale_y = 1.28, so floor(50*1.024) = 51 and
    // floor(50*1.28) = 64.
    let padded = BBox { xmin: 50, ymin: 50, xmax: 250, ymax: 200 };
    let m = to_mask_space(&padded, 1000, 800, 1024, 1024);
    assert_eq!(m.xmin, 51);
    assert_eq!(m.ymin, 64);
    assert_eq!(m.xmax, 256);
    assert_eq!(m.ymax, 256);
}

#[test]
fn mask_space_round_trip_covers_original() {
    // Mapping back by the inverse scale must cover the original rectangle:
    // m.xmin/mw <= r.xmin/sw and r.xmax/sw <= m.xmax/mw, multiplied out.
    let r = BBox { xmin: 33, ymin: 57, xmax: 419, ymax: 701 };
    let (sw, sh, mw, mh) = (1000i64, 800i64, 1024i64, 1024i64);
    let m = to_mask_space(&r, sw as u32, sh as u32, mw as u32, mh as u32);
    assert!(m.xmin * sw <= r.xmin * mw);
    assert!(r.xmax * mw <= m.xmax * sw);
    assert!(m.ymin * sh <= r.ymin * mh);
    assert!(r.ymax * mh <= m.ymax * sh);
}

#[test]
fn mask_space_clamps_minima_and_maxima() {
    let r = BBox { xmin: -20, ymin: 5000, xmax: 9000, ymax: 9000 };
    let m = to_mask_space(&r, 100, 100, 64, 64);
    assert_eq!(m.xmin, 0);
    assert_eq!(m.ymin, 63);
    assert_eq!(m.xmax, 64);
    assert_eq!(m.ymax, 64);
}

#[test]
fn clamp_bbox_basic_and_degenerate() {
    let r = BBox { xmin: -5, ymin: 10, xmax: 30, ymax: 200 };
    let (x, y, w, h) = clamp_bbox_to_image(&r, 100, 100).unwrap();
    assert_eq!((x, y, w, h), (0, 10, 30, 90));
    let outside = BBox { xmin: 200, ymin: 10, xmax: 300, ymax: 20 };
    assert!(matches!(clamp_bbox_to_image(&outside, 100, 100), Err(CommandError::Geometry)));
}
