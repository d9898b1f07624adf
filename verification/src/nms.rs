use vstd::prelude::*;

use crate::detect::ClassifiedBbox;
use crate::error::CommandError;

verus! {

/// Area of a box; positive for valid boxes.
pub open spec fn box_area(b: ClassifiedBbox) -> int {
    (b.xmax - b.xmin) * (b.ymax - b.ymin)
}

/// Length of the overlap of the segments `[a1, a2]` and `[b1, b2]`.
pub open spec fn overlap_len(a1: int, a2: int, b1: int, b2: int) -> int {
    let lo = vstd::math::max(a1, b1);
    let hi = vstd::math::min(a2, b2);
    if hi > lo {
        hi - lo
    } else {
        0
    }
}

/// Area of the intersection of two boxes.
pub open spec fn intersection_area(a: ClassifiedBbox, b: ClassifiedBbox) -> int {
    overlap_len(a.xmin as int, a.xmax as int, b.xmin as int, b.xmax as int) * overlap_len(
        a.ymin as int,
        a.ymax as int,
        b.ymin as int,
        b.ymax as int,
    )
}

/// Area of the union of two boxes.
pub open spec fn union_area(a: ClassifiedBbox, b: ClassifiedBbox) -> int {
    box_area(a) + box_area(b) - intersection_area(a, b)
}

/// Whether the intersection-over-union of `a` and `b` exceeds the threshold
/// given in thousandths, written multiplied out so no division appears:
/// `inter / union > thr / 1000`.
pub open spec fn iou_exceeds(a: ClassifiedBbox, b: ClassifiedBbox, thr: int) -> bool {
    intersection_area(a, b) * 1000 > union_area(a, b) * thr
}

/// The boxes of `s`, in order, whose intersection-over-union with the
/// emitted box `e` does not exceed the threshold: the suppression step of
/// one round.
pub open spec fn pruned(e: ClassifiedBbox, s: Seq<ClassifiedBbox>, thr: int) -> Seq<ClassifiedBbox>
    decreases s.len(),
{
    if s.len() == 0 {
        Seq::empty()
    } else {
        let rest = pruned(e, s.drop_last(), thr);
        if !iou_exceeds(e, s.last(), thr) {
            rest.push(s.last())
        } else {
            rest
        }
    }
}

/// The index that a forward scan starting at `i` with current best `best`
/// ends on: the first index of maximal confidence.
pub open spec fn first_max_from(s: Seq<ClassifiedBbox>, i: int, best: int) -> int
    decreases s.len() - i,
{
    if i >= s.len() {
        best
    } else {
        first_max_from(
            s,
            i + 1,
            if s[i].confidence > s[best].confidence {
                i
            } else {
                best
            },
        )
    }
}

/// The first index of maximal confidence in a non-empty sequence: the
/// stable tie-break of the suppressor (equal confidences keep discovery
/// order).
pub open spec fn first_max_index(s: Seq<ClassifiedBbox>) -> int {
    first_max_from(s, 1, 0)
}

/// `k` is the index of the first occurrence of the maximal confidence.
pub open spec fn is_first_max(s: Seq<ClassifiedBbox>, k: int) -> bool {
    &&& 0 <= k < s.len()
    &&& forall|j: int| 0 <= j < s.len() ==> (#[trigger] s[j]).confidence <= s[k].confidence
    &&& forall|j: int| 0 <= j < k ==> (#[trigger] s[j]).confidence < s[k].confidence
}

/// Greedy per-class non-maximum suppression: repeatedly take the
/// highest-confidence remaining box (first one on ties), emit it, and drop
/// every remaining box whose intersection-over-union with it exceeds the
/// threshold. The empty input gives the empty output.
pub open spec fn nms_spec(s: Seq<ClassifiedBbox>, thr: int) -> Seq<ClassifiedBbox>
    decreases s.len(),
    via nms_spec_decreases
{
    if s.len() == 0 {
        Seq::empty()
    } else {
        let i = first_max_index(s);
        if 0 <= i < s.len() {
            seq![s[i]] + nms_spec(pruned(s[i], s.remove(i), thr), thr)
        } else {
            Seq::empty()
        }
    }
}

#[via_fn]
proof fn nms_spec_decreases(s: Seq<ClassifiedBbox>, thr: int) {
    if s.len() != 0 {
        let i = first_max_index(s);
        if 0 <= i < s.len() {
            lemma_pruned_len(s[i], s.remove(i), thr);
        }
    }
}

/// Pruning never lengthens a sequence.
pub proof fn lemma_pruned_len(e: ClassifiedBbox, s: Seq<ClassifiedBbox>, thr: int)
    ensures
        pruned(e, s, thr).len() <= s.len(),
    decreases s.len(),
{
    if s.len() > 0 {
        lemma_pruned_len(e, s.drop_last(), thr);
    }
}

/// Every pruned box is a box of the input.
pub proof fn lemma_pruned_subset(e: ClassifiedBbox, s: Seq<ClassifiedBbox>, thr: int)
    ensures
        forall|x: ClassifiedBbox| pruned(e, s, thr).contains(x) ==> s.contains(x),
    decreases s.len(),
{
    if s.len() > 0 {
        lemma_pruned_subset(e, s.drop_last(), thr);
        assert forall|x: ClassifiedBbox| pruned(e, s, thr).contains(x) implies s.contains(x) by {
            let p = pruned(e, s, thr);
            let rest = pruned(e, s.drop_last(), thr);
            let k = choose|k: int| 0 <= k < p.len() && p[k] == x;
            if !iou_exceeds(e, s.last(), thr) && k == rest.len() {
                assert(s[s.len() - 1] == x);
            } else {
                assert(rest[k] == x);
                assert(rest.contains(x));
                assert(s.drop_last().contains(x));
                let m = choose|m: int| 0 <= m < s.drop_last().len() && s.drop_last()[m] == x;
                assert(s[m] == x);
            }
        }
    }
}

/// Every pruned box clears the threshold against the emitted box.
pub proof fn lemma_pruned_all_kept(e: ClassifiedBbox, s: Seq<ClassifiedBbox>, thr: int)
    ensures
        forall|k: int|
            0 <= k < pruned(e, s, thr).len() ==> !iou_exceeds(
                e,
                #[trigger] pruned(e, s, thr)[k],
                thr,
            ),
    decreases s.len(),
{
    if s.len() > 0 {
        lemma_pruned_all_kept(e, s.drop_last(), thr);
        let p = pruned(e, s, thr);
        let rest = pruned(e, s.drop_last(), thr);
        assert forall|k: int| 0 <= k < p.len() implies !iou_exceeds(e, #[trigger] p[k], thr) by {
            if !iou_exceeds(e, s.last(), thr) && k == rest.len() {
                assert(p[k] == s.last());
            } else {
                assert(p[k] == rest[k]);
            }
        }
    }
}

/// Pruning a sequence in which every box already clears the threshold
/// changes nothing.
pub proof fn lemma_pruned_identity(e: ClassifiedBbox, s: Seq<ClassifiedBbox>, thr: int)
    requires
        forall|k: int| 0 <= k < s.len() ==> !iou_exceeds(e, #[trigger] s[k], thr),
    ensures
        pruned(e, s, thr) == s,
    decreases s.len(),
{
    if s.len() > 0 {
        assert(forall|k: int|
            0 <= k < s.drop_last().len() ==> !iou_exceeds(e, #[trigger] s.drop_last()[k], thr));
        lemma_pruned_identity(e, s.drop_last(), thr);
        assert(!iou_exceeds(e, s.last(), thr));
        assert(s.drop_last().push(s.last()) =~= s);
    }
}

/// The forward scan lands on the first index of maximal confidence.
proof fn lemma_first_max_from_is_first(s: Seq<ClassifiedBbox>, i: int, best: int)
    requires
        0 <= best < i <= s.len(),
        forall|j: int| 0 <= j < i ==> (#[trigger] s[j]).confidence <= s[best].confidence,
        forall|j: int| 0 <= j < best ==> (#[trigger] s[j]).confidence < s[best].confidence,
    ensures
        is_first_max(s, first_max_from(s, i, best)),
    decreases s.len() - i,
{
    if i >= s.len() {
    } else {
        if s[i].confidence > s[best].confidence {
            lemma_first_max_from_is_first(s, i + 1, i);
        } else {
            lemma_first_max_from_is_first(s, i + 1, best);
        }
    }
}

/// The first index of maximal confidence of a non-empty sequence is a
/// well-defined in-range index.
pub proof fn lemma_first_max_index_is_first(s: Seq<ClassifiedBbox>)
    requires
        s.len() >= 1,
    ensures
        is_first_max(s, first_max_index(s)),
{
    lemma_first_max_from_is_first(s, 1, 0);
}

/// Two first-max indices coincide.
proof fn lemma_first_max_unique(s: Seq<ClassifiedBbox>, k1: int, k2: int)
    requires
        is_first_max(s, k1),
        is_first_max(s, k2),
    ensures
        k1 == k2,
{
    if k1 < k2 {
        assert(s[k1].confidence < s[k2].confidence);
        assert(s[k2].confidence <= s[k1].confidence);
    } else if k2 < k1 {
        assert(s[k2].confidence < s[k1].confidence);
        assert(s[k1].confidence <= s[k2].confidence);
    }
}

/// Every box that suppression emits is a box of the input.
pub proof fn lemma_nms_subset(s: Seq<ClassifiedBbox>, thr: int)
    ensures
        forall|x: ClassifiedBbox| nms_spec(s, thr).contains(x) ==> s.contains(x),
    decreases s.len(),
{
    if s.len() > 0 {
        lemma_first_max_index_is_first(s);
        let i = first_max_index(s);
        let rest = pruned(s[i], s.remove(i), thr);
        lemma_pruned_len(s[i], s.remove(i), thr);
        lemma_nms_subset(rest, thr);
        lemma_pruned_subset(s[i], s.remove(i), thr);
        assert forall|x: ClassifiedBbox| nms_spec(s, thr).contains(x) implies s.contains(x) by {
            let out = nms_spec(s, thr);
            let k = choose|k: int| 0 <= k < out.len() && out[k] == x;
            if k == 0 {
                assert(s[i] == x);
            } else {
                assert(nms_spec(rest, thr)[k - 1] == x);
                assert(nms_spec(rest, thr).contains(x));
                assert(s.remove(i).contains(x));
                let m = choose|m: int| 0 <= m < s.remove(i).len() && s.remove(i)[m] == x;
                if m < i {
                    assert(s[m] == x);
                } else {
                    assert(s[m + 1] == x);
                }
            }
        }
    }
}

/// Non-maximum suppression is idempotent: running it again on its own
/// output yields the same sequence of boxes.
pub proof fn lemma_nms_idempotent(s: Seq<ClassifiedBbox>, thr: int)
    ensures
        nms_spec(nms_spec(s, thr), thr) == nms_spec(s, thr),
    decreases s.len(),
{
    if s.len() == 0 {
    } else {
        lemma_first_max_index_is_first(s);
        let i = first_max_index(s);
        let e = s[i];
        let rem = s.remove(i);
        let rest = pruned(e, rem, thr);
        lemma_pruned_len(e, rem, thr);
        let t = nms_spec(rest, thr);
        let out = nms_spec(s, thr);
        assert(out == seq![e] + t);
        lemma_nms_subset(rest, thr);
        lemma_pruned_subset(e, rem, thr);
        assert forall|j: int|
            0 <= j < out.len() implies (#[trigger] out[j]).confidence <= e.confidence by {
            if j > 0 {
                assert(out[j] == t[j - 1]);
                assert(t.contains(t[j - 1]));
                assert(rem.contains(t[j - 1]));
                let m = choose|m: int| 0 <= m < rem.len() && rem[m] == t[j - 1];
                if m < i {
                    assert(s[m] == rem[m]);
                } else {
                    assert(s[m + 1] == rem[m]);
                }
            }
        }
        assert(is_first_max(out, 0));
        lemma_first_max_index_is_first(out);
        lemma_first_max_unique(out, first_max_index(out), 0);
        assert(out.remove(0) =~= t);
        lemma_pruned_all_kept(e, rem, thr);
        assert forall|k: int| 0 <= k < t.len() implies !iou_exceeds(e, #[trigger] t[k], thr) by {
            assert(t.contains(t[k]));
            assert(rest.contains(t[k]));
            let m = choose|m: int| 0 <= m < rest.len() && rest[m] == t[k];
            assert(!iou_exceeds(e, rest[m], thr));
        }
        lemma_pruned_identity(e, t, thr);
        lemma_nms_idempotent(rest, thr);
        assert(nms_spec(out, thr) == seq![out[0]] + nms_spec(
            pruned(out[0], out.remove(0), thr),
            thr,
        ));
        assert(out[0] == e);
        assert(nms_spec(out, thr) == out);
    }
}

/// Length of the in-range overlap of two segments.
fn overlap_exec(a1: i64, a2: i64, b1: i64, b2: i64) -> (r: i128)
    requires
        -0x100000000000000 <= a1 <= 0x100000000000000,
        -0x100000000000000 <= a2 <= 0x100000000000000,
        -0x100000000000000 <= b1 <= 0x100000000000000,
        -0x100000000000000 <= b2 <= 0x100000000000000,
    ensures
        r as int == overlap_len(a1 as int, a2 as int, b1 as int, b2 as int),
        0 <= r <= 0x200000000000000,
{
    let lo = if a1 > b1 {
        a1
    } else {
        b1
    };
    let hi = if a2 < b2 {
        a2
    } else {
        b2
    };
    if hi > lo {
        hi as i128 - lo as i128
    } else {
        0
    }
}

/// Whether the intersection-over-union of two boxes exceeds `thr`
/// thousandths, decided exactly in integer arithmetic.
fn iou_exceeds_exec(a: &ClassifiedBbox, b: &ClassifiedBbox, thr: u32) -> (r: bool)
    requires
        a.coords_bounded(),
        b.coords_bounded(),
        thr <= 1000,
    ensures
        r == iou_exceeds(*a, *b, thr as int),
{
    let ix = overlap_exec(a.xmin, a.xmax, b.xmin, b.xmax);
    let iy = overlap_exec(a.ymin, a.ymax, b.ymin, b.ymax);
    proof {
        let xi = ix as int;
        let yi = iy as int;
        assert(0 <= xi * yi <= 0x40000000000000000000000000000) by (nonlinear_arith)
            requires
                0 <= xi <= 0x200000000000000,
                0 <= yi <= 0x200000000000000,
        ;
    }
    let inter: i128 = ix * iy;
    let aw: i128 = a.xmax as i128 - a.xmin as i128;
    let ah: i128 = a.ymax as i128 - a.ymin as i128;
    let bw: i128 = b.xmax as i128 - b.xmin as i128;
    let bh: i128 = b.ymax as i128 - b.ymin as i128;
    proof {
        let awi = aw as int;
        let ahi = ah as int;
        let bwi = bw as int;
        let bhi = bh as int;
        assert(-0x40000000000000000000000000000 <= awi * ahi <= 0x40000000000000000000000000000
            && -0x40000000000000000000000000000 <= bwi * bhi <= 0x40000000000000000000000000000)
            by (nonlinear_arith)
            requires
                -0x200000000000000 <= awi <= 0x200000000000000,
                -0x200000000000000 <= ahi <= 0x200000000000000,
                -0x200000000000000 <= bwi <= 0x200000000000000,
                -0x200000000000000 <= bhi <= 0x200000000000000,
        ;
    }
    let area_a: i128 = aw * ah;
    let area_b: i128 = bw * bh;
    let union_a: i128 = area_a + area_b - inter;
    proof {
        let ui = union_a as int;
        let ti = thr as int;
        assert(-0x2ee00000000000000000000000000000 <= ui * ti
            <= 0x2ee00000000000000000000000000000) by (nonlinear_arith)
            requires
                -0xc0000000000000000000000000000 <= ui <= 0xc0000000000000000000000000000,
                0 <= ti <= 1000,
        ;
    }
    inter * 1000 > union_a * (thr as i128)
}

/// Greedy per-class non-maximum suppression over one class list: sort-free
/// selection of the highest-confidence remaining box (first one on ties),
/// then removal of every box whose intersection-over-union with it exceeds
/// the threshold, until no candidate remains. Boxes of different classes
/// never suppress each other: the caller runs this once per class.
pub fn non_maximum_suppression(boxes: Vec<ClassifiedBbox>, threshold_milli: u32) -> (r: Vec<
    ClassifiedBbox,
>)
    requires
        threshold_milli <= 1000,
        forall|k: int| 0 <= k < boxes@.len() ==> (#[trigger] boxes@[k]).coords_bounded(),
    ensures
        r@ == nms_spec(boxes@, threshold_milli as int),
{
    let ghost orig = boxes@;
    let ghost thr = threshold_milli as int;
    let mut remaining = boxes;
    let mut out: Vec<ClassifiedBbox> = Vec::new();
    while remaining.len() > 0
        invariant
            threshold_milli <= 1000,
            thr == threshold_milli as int,
            forall|k: int|
                0 <= k < remaining@.len() ==> (#[trigger] remaining@[k]).coords_bounded(),
            nms_spec(orig, thr) == out@ + nms_spec(remaining@, thr),
        decreases remaining@.len(),
    {
        let ghost s = remaining@;
        let ghost out0 = out@;
        let n = remaining.len();
        let mut best: usize = 0;
        let mut i: usize = 1;
        while i < n
            invariant
                n == remaining@.len(),
                n >= 1,
                1 <= i,
                i <= n,
                best < i,
                first_max_from(remaining@, i as int, best as int) == first_max_index(remaining@),
            decreases n - i,
        {
            if remaining[i].confidence > remaining[best].confidence {
                best = i;
            }
            i = i + 1;
        }
        proof {
            assert(first_max_from(s, n as int, best as int) == best as int);
            assert(best as int == first_max_index(s));
        }
        let e = remaining.remove(best);
        let mut kept: Vec<ClassifiedBbox> = Vec::new();
        let mut j: usize = 0;
        while j < remaining.len()
            invariant
                threshold_milli <= 1000,
                thr == threshold_milli as int,
                e.coords_bounded(),
                forall|k: int|
                    0 <= k < remaining@.len() ==> (#[trigger] remaining@[k]).coords_bounded(),
                j <= remaining@.len(),
                kept@ == pruned(e, remaining@.subrange(0, j as int), thr),
                forall|k: int| 0 <= k < kept@.len() ==> (#[trigger] kept@[k]).coords_bounded(),
            decreases remaining@.len() - j,
        {
            let ghost sub1 = remaining@.subrange(0, j as int + 1);
            let b = remaining[j];
            if !iou_exceeds_exec(&e, &b, threshold_milli) {
                kept.push(b);
            }
            proof {
                assert(sub1.drop_last() =~= remaining@.subrange(0, j as int));
                assert(sub1.last() == remaining@[j as int]);
            }
            j = j + 1;
        }
        proof {
            assert(remaining@.subrange(0, remaining@.len() as int) =~= remaining@);
            assert(kept@ == pruned(e, s.remove(best as int), thr));
        }
        out.push(e);
        remaining = kept;
        proof {
            lemma_pruned_len(e, s.remove(best as int), thr);
            assert(nms_spec(s, thr) == seq![s[best as int]] + nms_spec(
                pruned(s[best as int], s.remove(best as int), thr),
                thr,
            ));
            assert(out@ == out0.push(e));
            assert(out0 + nms_spec(s, thr) =~= out@ + nms_spec(remaining@, thr));
        }
    }
    proof {
        assert(out@ + nms_spec(remaining@, thr) =~= out@);
    }
    out
}

/// The postprocessing half of a detection run: decode the raw tensor into
/// per-class candidates, suppress each class independently, and return the
/// class-0 boxes followed by the class-1 boxes. Fails exactly when the
/// tensor shape is malformed, before anything is decoded.
pub fn detect_postprocess(
    data: &Vec<i32>,
    shape: &Vec<usize>,
    src_width: u32,
    src_height: u32,
    confidence_threshold: i32,
    nms_threshold_milli: u32,
) -> (res: Result<Vec<ClassifiedBbox>, CommandError>)
    requires
        src_width >= 1,
        src_height >= 1,
        nms_threshold_milli <= 1000,
    ensures
        res is Ok <==> crate::detect::tensor_shape_ok(data@, shape@),
        res matches Ok(v) ==> v@ == nms_spec(
            crate::detect::decoded_class(
                data@,
                shape@[2] as int,
                shape@[1] as int,
                src_width as int,
                src_height as int,
                confidence_threshold as int,
                0,
            ),
            nms_threshold_milli as int,
        ) + nms_spec(
            crate::detect::decoded_class(
                data@,
                shape@[2] as int,
                shape@[1] as int,
                src_width as int,
                src_height as int,
                confidence_threshold as int,
                1,
            ),
            nms_threshold_milli as int,
        ),
{
    let decoded = crate::detect::decode_boxes(
        data,
        shape,
        src_width,
        src_height,
        confidence_threshold,
    );
    match decoded {
        Ok((c0, c1)) => {
            let mut all = non_maximum_suppression(c0, nms_threshold_milli);
            let mut k1 = non_maximum_suppression(c1, nms_threshold_milli);
            all.append(&mut k1);
            Ok(all)
        },
        Err(e) => Err(e),
    }
}


} // verus!
