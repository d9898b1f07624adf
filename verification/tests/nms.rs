use koharu::detect::ClassifiedBbox;
use koharu::nms::non_maximum_suppression;

fn boxed(xmin: i64, ymin: i64, xmax: i64, ymax: i64, confidence: i64) -> ClassifiedBbox {
    ClassifiedBbox { xmin, ymin, xmax, ymax, confidence, class: 0 }
}

#[test]
fn nms_suppresses_heavy_overlap() {
    // b2 overlaps b1 with IoU 0.9 (intersection 90, union 100); b3 is far
    // away. Threshold 0.4.
    let b1 = boxed(0, 0, 10, 10, 900);
    let b2 = boxed(0, 0, 10, 9, 800);
    let b3 = boxed(20, 20, 30, 30, 700);
    let out = non_maximum_suppression(vec![b1, b2, b3], 400);
    assert_eq!(out, vec![b1, b3]);
}

#[test]
fn nms_keeps_light_overlap() {
    // Intersection 25, areas 100 and 100, union 175: IoU 1/7, under 0.4.
    let b1 = boxed(0, 0, 10, 10, 900);
    let b2 = boxed(5, 5, 15, 15, 800);
    let out = non_maximum_suppression(vec![b1, b2], 400);
    assert_eq!(out, vec![b1, b2]);
}

#[test]
fn nms_orders_by_confidence() {
    let low = boxed(0, 0, 10, 10, 100);
    let high = boxed(50, 50, 60, 60, 900);
    let mid = boxed(100, 100, 110, 110, 500);
    let out = non_maximum_suppression(vec![low, high, mid], 400);
    assert_eq!(out, vec![high, mid, low]);
}

#[test]
fn nms_tie_break_keeps_discovery_order() {
    // Equal confidences: the earlier box is emitted first.
    let first = boxed(0, 0, 10, 10, 500);
    let second = boxed(100, 100, 110, 110, 500);
    let out = non_maximum_suppression(vec![first, second], 400);
    assert_eq!(out, vec![first, second]);
}

#[test]
fn nms_is_idempotent_on_its_output() {
    let v = vec![
        boxed(0, 0, 10, 10, 900),
        boxed(0, 0, 10, 9, 800),
        boxed(20, 20, 30, 30, 700),
        boxed(21, 21, 30, 30, 950),
        boxed(5, 5, 15, 15, 600),
    ];
    let once = non_maximum_suppression(v, 400);
    let twice = non_maximum_suppression(once.clone(), 400);
    assert_eq!(twice, once);
}

#[test]
fn nms_empty_input_gives_empty_output() {
    let out = non_maximum_suppression(Vec::new(), 400);
    assert_eq!(out.len(), 0);
}

#[test]
fn nms_threshold_one_keeps_duplicates() {
    // IoU can equal but never exceed 1.0, so a threshold of 1000
    // suppresses nothing, even exact duplicates.
    let b1 = boxed(0, 0, 10, 10, 900);
    let b2 = boxed(0, 0, 10, 10, 800);
    let out = non_maximum_suppression(vec![b1, b2], 1000);
    assert_eq!(out, vec![b1, b2]);
}

#[test]
fn nms_threshold_zero_suppresses_any_overlap() {
    let b1 = boxed(0, 0, 10, 10, 900);
    let b2 = boxed(9, 9, 20, 20, 800);
    let b3 = boxed(10, 0, 20, 10, 700);
    let out = non_maximum_suppression(vec![b1, b2, b3], 0);
    // b2 shares one pixel with b1; b3 only touches b1's edge.
    assert_eq!(out, vec![b1, b3]);
}
