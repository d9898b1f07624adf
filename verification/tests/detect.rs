use koharu::detect::ClassifiedBbox;
use koharu::detect::decode_boxes;
use koharu::error::CommandError;
use koharu::nms::detect_postprocess;

fn row(cx: i32, cy: i32, w: i32, h: i32, conf: i32, s0: i32, s1: i32) -> Vec<i32> {
    vec![cx, cy, w, h, conf, s0, s1]
}

fn tensor(rows: &[Vec<i32>]) -> (Vec<i32>, Vec<usize>) {
    let mut data = Vec::new();
    for r in rows {
        assert_eq!(r.len(), 7);
        data.extend_from_slice(r);
    }
    (data, vec![1, rows.len(), 7])
}

#[test]
fn decode_rescales_and_classifies() {
    // One row at model center: cx=512, cy=512, w=100, h=50, confident,
    // class-0 score ahead. Source image 1000x800.
    let (data, shape) = tensor(&[row(512, 512, 100, 50, 900_000, 10, 5)]);
    let (c0, c1) = decode_boxes(&data, &shape, 1000, 800, 500_000).unwrap();
    assert_eq!(c1.len(), 0);
    assert_eq!(c0.len(), 1);
    let b = c0[0];
    // xmin = floor((2*512-100)*1000/2048) = floor(451.17), xmax = ceil(548.83)
    assert_eq!(b.xmin, 451);
    assert_eq!(b.xmax, 549);
    // ymin = floor(974*800/2048) = floor(380.46), ymax = ceil(419.53)
    assert_eq!(b.ymin, 380);
    assert_eq!(b.ymax, 420);
    assert_eq!(b.confidence, 900_000);
    assert_eq!(b.class, 0);
}

#[test]
fn decode_class_one_when_score_one_wins() {
    let (data, shape) = tensor(&[row(100, 100, 20, 20, 800, 3, 9)]);
    let (c0, c1) = decode_boxes(&data, &shape, 1024, 1024, 500).unwrap();
    assert_eq!(c0.len(), 0);
    assert_eq!(c1.len(), 1);
    assert_eq!(c1[0].class, 1);
}

#[test]
fn decoded_boxes_are_never_degenerate() {
    // Rows with positive sizes decode to strictly positive areas, even at
    // the smallest size; rows with zero or negative size are dropped.
    let (data, shape) = tensor(&[
        row(0, 0, 1, 1, 900, 9, 1),
        row(512, 512, 0, 10, 900, 9, 1),
        row(512, 512, 10, -3, 900, 9, 1),
        row(1024, 1024, 1, 1, 900, 9, 1),
    ]);
    let (c0, c1) = decode_boxes(&data, &shape, 333, 777, 100).unwrap();
    assert_eq!(c1.len(), 0);
    assert_eq!(c0.len(), 2);
    for b in &c0 {
        assert!(b.xmax > b.xmin);
        assert!(b.ymax > b.ymin);
    }
}

#[test]
fn decode_rejects_malformed_shapes() {
    let (data, _) = tensor(&[row(1, 1, 1, 1, 1, 1, 1)]);
    // Wrong rank.
    assert!(matches!(
        decode_boxes(&data, &vec![7usize], 100, 100, 0),
        Err(CommandError::Decode)
    ));
    // Fewer than seven columns.
    assert!(matches!(
        decode_boxes(&data, &vec![1usize, 1, 6], 100, 100, 0),
        Err(CommandError::Decode)
    ));
    // Batch that is not one.
    assert!(matches!(
        decode_boxes(&data, &vec![2usize, 1, 7], 100, 100, 0),
        Err(CommandError::Decode)
    ));
    // Length disagrees with the shape.
    assert!(matches!(
        decode_boxes(&data, &vec![1usize, 2, 7], 100, 100, 0),
        Err(CommandError::Decode)
    ));
}

#[test]
fn decode_below_threshold_gives_empty_lists() {
    // No row reaches the confidence threshold: both class lists are empty
    // and no error is raised.
    let (data, shape) = tensor(&[
        row(100, 100, 10, 10, 400, 9, 1),
        row(200, 200, 10, 10, 499, 1, 9),
    ]);
    let (c0, c1) = decode_boxes(&data, &shape, 1024, 1024, 500).unwrap();
    assert_eq!(c0.len(), 0);
    assert_eq!(c1.len(), 0);
}

#[test]
fn postprocess_keeps_classes_apart() {
    // Two heavily overlapping boxes of different classes: neither
    // suppresses the other.
    let (data, shape) = tensor(&[
        row(100, 100, 20, 20, 900, 9, 1),
        row(100, 100, 22, 22, 800, 1, 9),
    ]);
    let all = detect_postprocess(&data, &shape, 1024, 1024, 500, 400).unwrap();
    assert_eq!(all.len(), 2);
    assert_eq!(all[0].class, 0);
    assert_eq!(all[1].class, 1);
}

#[test]
fn postprocess_empty_above_threshold() {
    // Empty suppression input: the output is an empty list per class, not
    // an error.
    let (data, shape) = tensor(&[row(100, 100, 20, 20, 100, 9, 1)]);
    let all = detect_postprocess(&data, &shape, 1024, 1024, 500, 400).unwrap();
    assert_eq!(all.len(), 0);
}

#[test]
fn detection_result_encodes_the_mask_as_png() {
    let mask_bytes: Vec<u8> = (0..64u32).map(|v| (v * 4) as u8).collect();
    let mask = koharu::buffer::MaskBuf::new(mask_bytes.clone(), 8, 8).unwrap();
    let boxes = vec![ClassifiedBbox {
        xmin: 1,
        ymin: 2,
        xmax: 3,
        ymax: 4,
        confidence: 5,
        class: 1,
    }];
    let result = koharu::detect::DetectionResult::new(boxes.clone(), &mask);
    assert_eq!(result.bboxes, boxes);
    assert_eq!((result.mask_width, result.mask_height), (8, 8));
    // The bytes are a real PNG that decodes back to the mask.
    let decoded = image::load_from_memory(&result.mask_png).unwrap().to_luma8();
    assert_eq!(decoded.dimensions(), (8, 8));
    assert_eq!(decoded.into_raw(), mask_bytes);
}

#[test]
fn classified_bbox_is_plain_data() {
    let b = ClassifiedBbox { xmin: 1, ymin: 2, xmax: 3, ymax: 4, confidence: 5, class: 0 };
    let c = b;
    assert_eq!(b, c);
}
