use vstd::prelude::*;

verus! {

/// The views of a list of strings, as sequences of characters.
pub open spec fn char_views(v: Seq<String>) -> Seq<Seq<char>> {
    v.map_values(|s: String| s@)
}

/// Levenshtein distance between the first `i` entries of `a` and the first
/// `j` entries of `b`: the least number of insertions, deletions and
/// substitutions that turns one into the other.
pub open spec fn lev(a: Seq<Seq<char>>, b: Seq<Seq<char>>, i: int, j: int) -> int
    decreases i + j,
{
    if i <= 0 {
        if j <= 0 {
            0
        } else {
            j
        }
    } else if j <= 0 {
        i
    } else {
        let cost: int = if a[i - 1] == b[j - 1] {
            0
        } else {
            1
        };
        min3(lev(a, b, i - 1, j) + 1, lev(a, b, i, j - 1) + 1, lev(a, b, i - 1, j - 1) + cost)
    }
}

pub open spec fn min3(x: int, y: int, z: int) -> int {
    vstd::math::min(x, vstd::math::min(y, z))
}

/// The distance never exceeds the longer prefix length.
pub proof fn lemma_lev_upper_bound(a: Seq<Seq<char>>, b: Seq<Seq<char>>, i: int, j: int)
    requires
        0 <= i,
        0 <= j,
    ensures
        0 <= lev(a, b, i, j) <= vstd::math::max(i, j),
    decreases i + j,
{
    if i > 0 && j > 0 {
        lemma_lev_upper_bound(a, b, i - 1, j);
        lemma_lev_upper_bound(a, b, i, j - 1);
        lemma_lev_upper_bound(a, b, i - 1, j - 1);
    }
}

/// What `unicode_segmentation`'s extended grapheme segmentation yields for
/// a string: a pure function of the characters alone.
pub uninterp spec fn graphemes_of(s: Seq<char>) -> Seq<Seq<char>>;

/// What `str::split_whitespace` yields for a string: a pure function of the
/// characters alone.
pub uninterp spec fn words_of(s: Seq<char>) -> Seq<Seq<char>>;

/// Relies on `unicode_segmentation::UnicodeSegmentation::graphemes` with
/// extended grapheme clusters: the segmentation depends on the characters
/// alone, and an empty string has no graphemes.
#[verifier::external_body]
fn graphemes(s: &str) -> (r: Vec<String>)
    ensures
        char_views(r@) == graphemes_of(s@),
        s@.len() == 0 ==> r@.len() == 0,
{
    unicode_segmentation::UnicodeSegmentation::graphemes(s, true)
        .map(|g| g.to_string())
        .collect()
}

/// Relies on `str::split_whitespace`: the split depends on the characters
/// alone, and an empty string has no words.
#[verifier::external_body]
fn split_words(s: &str) -> (r: Vec<String>)
    ensures
        char_views(r@) == words_of(s@),
        s@.len() == 0 ==> r@.len() == 0,
{
    s.split_whitespace().map(|w| w.to_string()).collect()
}

/// Levenshtein distance between two lists of strings, by the classic
/// dynamic program over the full edit matrix.
pub fn levenshtein_distance(a: &Vec<String>, b: &Vec<String>) -> (r: usize)
    ensures
        r == lev(char_views(a@), char_views(b@), a@.len() as int, b@.len() as int),
{
    let ghost av = char_views(a@);
    let ghost bv = char_views(b@);
    let len_a = a.len();
    let len_b = b.len();
    if len_a == 0 {
        return len_b;
    }
    if len_b == 0 {
        return len_a;
    }
    // Row 0: distance from the empty prefix of `a` is the prefix length of
    // `b`.
    let mut prev: Vec<usize> = Vec::new();
    prev.push(0);
    let mut j: usize = 0;
    while j < len_b
        invariant
            len_b == b@.len(),
            j <= len_b,
            prev@.len() == j + 1,
            forall|t: int| 0 <= t <= j ==> prev@[t] == lev(av, bv, 0, t),
        decreases len_b - j,
    {
        prev.push(j + 1);
        j = j + 1;
    }
    let mut i: usize = 0;
    while i < len_a
        invariant
            len_a == a@.len(),
            len_b == b@.len(),
            av == char_views(a@),
            bv == char_views(b@),
            i <= len_a,
            prev@.len() == len_b + 1,
            forall|t: int| 0 <= t <= len_b ==> prev@[t] == lev(av, bv, i as int, t),
        decreases len_a - i,
    {
        // Row i+1, built cell by cell from row i.
        let mut cur: Vec<usize> = Vec::new();
        cur.push(i + 1);
        proof {
            lemma_lev_upper_bound(av, bv, i as int + 1, 0);
        }
        let mut q: usize = 0;
        while q < len_b
            invariant
                len_a == a@.len(),
                len_b == b@.len(),
                av == char_views(a@),
                bv == char_views(b@),
                i < len_a,
                q <= len_b,
                prev@.len() == len_b + 1,
                forall|t: int| 0 <= t <= len_b ==> prev@[t] == lev(av, bv, i as int, t),
                cur@.len() == q + 1,
                forall|t: int| 0 <= t <= q ==> cur@[t] == lev(av, bv, i as int + 1, t),
            decreases len_b - q,
        {
            proof {
                assert(av[i as int] == a@[i as int]@);
                assert(bv[q as int] == b@[q as int]@);
            }
            let cost: u128 = if a[i] == b[q] {
                0
            } else {
                1
            };
            let del: u128 = prev[q + 1] as u128 + 1;
            let ins: u128 = cur[q] as u128 + 1;
            let sub: u128 = prev[q] as u128 + cost;
            let mut best = del;
            if ins < best {
                best = ins;
            }
            if sub < best {
                best = sub;
            }
            proof {
                assert(best as int == lev(av, bv, i as int + 1, q as int + 1));
                lemma_lev_upper_bound(av, bv, i as int + 1, q as int + 1);
            }
            cur.push(best as usize);
            q = q + 1;
        }
        prev = cur;
        i = i + 1;
    }
    prev[len_b]
}

/// The edit statistics behind a character error rate: the Levenshtein
/// distance between the grapheme sequences of the two strings, with both
/// grapheme counts, so that the caller can form the rate
/// `distance / truth_len`.
pub fn grapheme_distance(ground_truth: &str, predicted: &str) -> (r: (usize, usize, usize))
    ensures
        ({
            let gt = graphemes_of(ground_truth@);
            let pr = graphemes_of(predicted@);
            r.0 == lev(gt, pr, gt.len() as int, pr.len() as int) && r.1 == gt.len() && r.2
                == pr.len()
        }),
{
    let gt = graphemes(ground_truth);
    let pr = graphemes(predicted);
    proof {
        assert(graphemes_of(ground_truth@).len() == gt@.len());
        assert(graphemes_of(predicted@).len() == pr@.len());
    }
    let d = levenshtein_distance(&gt, &pr);
    (d, gt.len(), pr.len())
}

/// The edit statistics behind a word error rate: the Levenshtein distance
/// between the whitespace-separated word sequences of the two strings, with
/// both word counts.
pub fn word_distance(ground_truth: &str, predicted: &str) -> (r: (usize, usize, usize))
    ensures
        ({
            let gt = words_of(ground_truth@);
            let pr = words_of(predicted@);
            r.0 == lev(gt, pr, gt.len() as int, pr.len() as int) && r.1 == gt.len() && r.2
                == pr.len()
        }),
{
    let gt = split_words(ground_truth);
    let pr = split_words(predicted);
    proof {
        assert(words_of(ground_truth@).len() == gt@.len());
        assert(words_of(predicted@).len() == pr@.len());
    }
    let d = levenshtein_distance(&gt, &pr);
    (d, gt.len(), pr.len())
}

} // verus!
