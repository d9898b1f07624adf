use koharu::accuracy::grapheme_distance;
use koharu::accuracy::levenshtein_distance;
use koharu::accuracy::word_distance;

/// Character error rate: edit distance over graphemes divided by the
/// ground-truth length, with the empty-truth convention.
fn cer(ground_truth: &str, predicted: &str) -> f64 {
    let (d, truth_len, predicted_len) = grapheme_distance(ground_truth, predicted);
    if truth_len == 0 {
        if predicted_len == 0 { 0.0 } else { 1.0 }
    } else {
        d as f64 / truth_len as f64
    }
}

/// Word error rate: edit distance over whitespace-separated words divided
/// by the ground-truth word count, with the empty-truth convention.
fn wer(ground_truth: &str, predicted: &str) -> f64 {
    let (d, truth_len, predicted_len) = word_distance(ground_truth, predicted);
    if truth_len == 0 {
        if predicted_len == 0 { 0.0 } else { 1.0 }
    } else {
        d as f64 / truth_len as f64
    }
}

#[test]
fn test_perfect_accuracy() {
    assert_eq!(cer("hello world", "hello world"), 0.0);
    assert_eq!(wer("hello world", "hello world"), 0.0);
}

#[test]
fn test_complete_mismatch() {
    assert_eq!(cer("abc", "xyz"), 1.0);
    assert_eq!(wer("abc", "xyz"), 1.0);
}

#[test]
fn test_partial_accuracy() {
    // "h e l l o" vs "h x l l o" - one substitution
    assert_eq!(cer("hello", "hxllo"), 0.2);
    assert_eq!(wer("hello", "hxllo"), 1.0); // Different words
}

#[test]
fn test_empty_ground_truth() {
    assert_eq!(cer("", "hello"), 1.0);
    assert_eq!(wer("", "hello"), 1.0);
}

#[test]
fn test_empty_prediction() {
    assert_eq!(cer("hello", ""), 1.0);
    assert_eq!(wer("hello", ""), 1.0);
}

#[test]
fn word_distance_counts_words() {
    // One substituted word out of three: the splitter must actually split.
    let (d, truth_len, predicted_len) = word_distance("a b c", "a x c");
    assert_eq!((d, truth_len, predicted_len), (1, 3, 3));
    assert_eq!(wer("a b c", "a x c"), 1.0 / 3.0);
    // Whitespace runs collapse and edges are trimmed.
    let (d2, t2, p2) = word_distance("  a   b  ", "a b");
    assert_eq!((d2, t2, p2), (0, 2, 2));
}

#[test]
fn grapheme_distance_counts_graphemes() {
    let (d, truth_len, predicted_len) = grapheme_distance("hello", "hxllo");
    assert_eq!((d, truth_len, predicted_len), (1, 5, 5));
}

#[test]
fn levenshtein_exact_distances() {
    let to_vec = |words: &[&str]| -> Vec<String> { words.iter().map(|w| w.to_string()).collect() };
    // kitten -> sitting: the classic distance 3.
    let kitten = to_vec(&["k", "i", "t", "t", "e", "n"]);
    let sitting = to_vec(&["s", "i", "t", "t", "i", "n", "g"]);
    assert_eq!(levenshtein_distance(&kitten, &sitting), 3);
    // Against the empty sequence the distance is the other length.
    assert_eq!(levenshtein_distance(&kitten, &to_vec(&[])), 6);
    assert_eq!(levenshtein_distance(&to_vec(&[]), &sitting), 7);
    assert_eq!(levenshtein_distance(&to_vec(&[]), &to_vec(&[])), 0);
}
