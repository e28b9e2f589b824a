use vstd::prelude::*;

verus! {

/// The absolute difference of two pixels, as a mathematical integer.
pub open spec fn abs_diff(x: i32, y: i32) -> int {
    if x >= y {
        x - y
    } else {
        y - x
    }
}

/// The squared difference of two pixels, as a mathematical integer.
pub open spec fn sq_diff(x: i32, y: i32) -> int {
    (x - y) * (x - y)
}

/// The Manhattan distance between two equal-length pixel sequences: the sum
/// of the absolute per-component differences.
pub open spec fn manhattan_dist(a: Seq<i32>, b: Seq<i32>) -> int
    decreases a.len(),
{
    if a.len() == 0 {
        0
    } else {
        manhattan_dist(a.drop_last(), b.drop_last()) + abs_diff(a.last(), b.last())
    }
}

/// The squared Euclidean distance between two equal-length pixel sequences:
/// the sum of the squared per-component differences, with no final square
/// root taken.
pub open spec fn euclidean_sq_dist(a: Seq<i32>, b: Seq<i32>) -> int
    decreases a.len(),
{
    if a.len() == 0 {
        0
    } else {
        euclidean_sq_dist(a.drop_last(), b.drop_last()) + sq_diff(a.last(), b.last())
    }
}

proof fn lemma_sq_diff_symmetric(x: i32, y: i32)
    ensures
        sq_diff(x, y) == sq_diff(y, x),
{
    assert((x - y) * (x - y) == (y - x) * (y - x)) by (nonlinear_arith);
}

proof fn lemma_sq_diff_bounds(x: i32, y: i32)
    ensures
        0 <= sq_diff(x, y) <= 0xFFFF_FFFE_0000_0001,
{
    let d = x - y;
    assert(-0xFFFF_FFFF <= d <= 0xFFFF_FFFF);
    assert(0 <= d * d <= 0xFFFF_FFFF * 0xFFFF_FFFF) by (nonlinear_arith)
        requires
            -0xFFFF_FFFF <= d <= 0xFFFF_FFFF,
    ;
}

/// Each component contributes at most the full `i32` range to the Manhattan
/// distance, so the sum is bounded by the length times that range.
pub proof fn lemma_manhattan_dist_bounds(a: Seq<i32>, b: Seq<i32>)
    ensures
        0 <= manhattan_dist(a, b) <= a.len() * 0xFFFF_FFFF,
    decreases a.len(),
{
    if a.len() > 0 {
        lemma_manhattan_dist_bounds(a.drop_last(), b.drop_last());
    }
}

/// Each component contributes at most the square of the full `i32` range to
/// the squared Euclidean distance.
pub proof fn lemma_euclidean_sq_dist_bounds(a: Seq<i32>, b: Seq<i32>)
    ensures
        0 <= euclidean_sq_dist(a, b) <= a.len() * 0xFFFF_FFFE_0000_0001,
    decreases a.len(),
{
    if a.len() > 0 {
        lemma_euclidean_sq_dist_bounds(a.drop_last(), b.drop_last());
        lemma_sq_diff_bounds(a.last(), b.last());
    }
}

/// A sequence is at Manhattan distance zero from itself.
pub proof fn lemma_manhattan_self_distance_zero(a: Seq<i32>)
    ensures
        manhattan_dist(a, a) == 0,
    decreases a.len(),
{
    if a.len() > 0 {
        lemma_manhattan_self_distance_zero(a.drop_last());
    }
}

/// A sequence is at squared Euclidean distance zero from itself.
pub proof fn lemma_euclidean_self_distance_zero(a: Seq<i32>)
    ensures
        euclidean_sq_dist(a, a) == 0,
    decreases a.len(),
{
    if a.len() > 0 {
        lemma_euclidean_self_distance_zero(a.drop_last());
    }
}

/// The Manhattan distance is symmetric in its two arguments.
pub proof fn lemma_manhattan_symmetric(a: Seq<i32>, b: Seq<i32>)
    requires
        a.len() == b.len(),
    ensures
        manhattan_dist(a, b) == manhattan_dist(b, a),
    decreases a.len(),
{
    if a.len() > 0 {
        lemma_manhattan_symmetric(a.drop_last(), b.drop_last());
    }
}

/// The squared Euclidean distance is symmetric in its two arguments.
pub proof fn lemma_euclidean_symmetric(a: Seq<i32>, b: Seq<i32>)
    requires
        a.len() == b.len(),
    ensures
        euclidean_sq_dist(a, b) == euclidean_sq_dist(b, a),
    decreases a.len(),
{
    if a.len() > 0 {
        lemma_euclidean_symmetric(a.drop_last(), b.drop_last());
        lemma_sq_diff_symmetric(a.last(), b.last());
    }
}

/// The Manhattan distance of two equal-length sequences is zero exactly when
/// the sequences are equal.
pub proof fn lemma_manhattan_zero_iff_eq(a: Seq<i32>, b: Seq<i32>)
    requires
        a.len() == b.len(),
    ensures
        manhattan_dist(a, b) == 0 <==> a == b,
    decreases a.len(),
{
    if a.len() == 0 {
        assert(a =~= b);
    } else {
        lemma_manhattan_zero_iff_eq(a.drop_last(), b.drop_last());
        lemma_manhattan_dist_bounds(a.drop_last(), b.drop_last());
        if manhattan_dist(a, b) == 0 {
            assert(a.drop_last() == b.drop_last());
            assert forall|i: int| 0 <= i < a.len() implies a[i] == b[i] by {
                if i < a.len() - 1 {
                    assert(a[i] == a.drop_last()[i]);
                    assert(b[i] == b.drop_last()[i]);
                }
            }
            assert(a =~= b);
        }
        if a == b {
            assert(a.drop_last() =~= b.drop_last());
        }
    }
}

/// The squared Euclidean distance of two equal-length sequences is zero
/// exactly when the sequences are equal.
pub proof fn lemma_euclidean_zero_iff_eq(a: Seq<i32>, b: Seq<i32>)
    requires
        a.len() == b.len(),
    ensures
        euclidean_sq_dist(a, b) == 0 <==> a == b,
    decreases a.len(),
{
    if a.len() == 0 {
        assert(a =~= b);
    } else {
        lemma_euclidean_zero_iff_eq(a.drop_last(), b.drop_last());
        lemma_euclidean_sq_dist_bounds(a.drop_last(), b.drop_last());
        lemma_sq_diff_bounds(a.last(), b.last());
        if euclidean_sq_dist(a, b) == 0 {
            assert(euclidean_sq_dist(a.drop_last(), b.drop_last()) == 0);
            assert(a.drop_last() == b.drop_last());
            assert(sq_diff(a.last(), b.last()) == 0);
            assert(a.last() == b.last()) by (nonlinear_arith)
                requires
                    sq_diff(a.last(), b.last()) == 0,
            ;
            assert forall|i: int| 0 <= i < a.len() implies a[i] == b[i] by {
                if i < a.len() - 1 {
                    assert(a[i] == a.drop_last()[i]);
                    assert(b[i] == b.drop_last()[i]);
                }
            }
            assert(a =~= b);
        }
        if a == b {
            assert(a.drop_last() =~= b.drop_last());
        }
    }
}

/// A distance metric: a pure, non-negative measure of how far apart two
/// equal-length pixel sequences are, with every sequence at distance zero
/// from itself.
pub trait Distance: Sized {
    /// The mathematical distance this metric assigns to a pair of sequences.
    spec fn dist(&self, a: Seq<i32>, b: Seq<i32>) -> int;

    /// The metric never assigns a negative distance.
    proof fn lemma_dist_nonneg(&self, a: Seq<i32>, b: Seq<i32>)
        requires
            a.len() == b.len(),
        ensures
            self.dist(a, b) >= 0,
    ;

    /// The metric assigns distance zero to every sequence paired with itself.
    proof fn lemma_dist_self_zero(&self, a: Seq<i32>)
        ensures
            self.dist(a, a) == 0,
    ;

    /// Computes the distance between two images of the same size.
    fn between(&self, pixels1: &[i32], pixels2: &[i32]) -> (r: u128)
        requires
            pixels1@.len() == pixels2@.len(),
        ensures
            r == self.dist(pixels1@, pixels2@),
    ;
}

/// Compares two images pixel by pixel, adding up the absolute values of the
/// per-pixel differences. Identical images are at distance zero, and the
/// further apart two pixels are, the larger the distance.
pub struct ManhattanDistance {}

impl Distance for ManhattanDistance {
    open spec fn dist(&self, a: Seq<i32>, b: Seq<i32>) -> int {
        manhattan_dist(a, b)
    }

    proof fn lemma_dist_nonneg(&self, a: Seq<i32>, b: Seq<i32>) {
        lemma_manhattan_dist_bounds(a, b);
    }

    proof fn lemma_dist_self_zero(&self, a: Seq<i32>) {
        lemma_manhattan_self_distance_zero(a);
    }

    fn between(&self, pixels1: &[i32], pixels2: &[i32]) -> (r: u128) {
        let length = pixels1.len();
        let mut distance: u128 = 0;
        let mut i: usize = 0;
        while i < length
            invariant
                pixels1@.len() == pixels2@.len(),
                length == pixels1@.len(),
                i <= length,
                distance == manhattan_dist(pixels1@.take(i as int), pixels2@.take(i as int)),
                distance <= (i as int) * 0xFFFF_FFFF,
            decreases length - i,
        {
            let diff: i64 = pixels1[i] as i64 - pixels2[i] as i64;
            let ad: i64 = if diff < 0 {
                -diff
            } else {
                diff
            };
            proof {
                assert(pixels1@.take(i + 1).drop_last() =~= pixels1@.take(i as int));
                assert(pixels2@.take(i + 1).drop_last() =~= pixels2@.take(i as int));
                assert(ad == abs_diff(pixels1@[i as int], pixels2@[i as int]));
                vstd::arithmetic::mul::lemma_mul_inequality(
                    i + 1,
                    usize::MAX as int,
                    0xFFFF_FFFF,
                );
            }
            distance = distance + ad as u128;
            i = i + 1;
        }
        proof {
            assert(pixels1@.take(length as int) =~= pixels1@);
            assert(pixels2@.take(length as int) =~= pixels2@);
        }
        distance
    }
}

/// Compares two images pixel by pixel, adding up the squares of the
/// per-pixel differences. Identical images are at distance zero; the square
/// root is deliberately omitted, which preserves the nearest-neighbor
/// ranking.
pub struct EuclideanDistance {}

impl Distance for EuclideanDistance {
    open spec fn dist(&self, a: Seq<i32>, b: Seq<i32>) -> int {
        euclidean_sq_dist(a, b)
    }

    proof fn lemma_dist_nonneg(&self, a: Seq<i32>, b: Seq<i32>) {
        lemma_euclidean_sq_dist_bounds(a, b);
    }

    proof fn lemma_dist_self_zero(&self, a: Seq<i32>) {
        lemma_euclidean_self_distance_zero(a);
    }

    fn between(&self, pixels1: &[i32], pixels2: &[i32]) -> (r: u128) {
        let length = pixels1.len();
        let mut distance: u128 = 0;
        let mut i: usize = 0;
        while i < length
            invariant
                pixels1@.len() == pixels2@.len(),
                length == pixels1@.len(),
                i <= length,
                distance == euclidean_sq_dist(pixels1@.take(i as int), pixels2@.take(i as int)),
                distance <= (i as int) * 0xFFFF_FFFE_0000_0001,
            decreases length - i,
        {
            let diff: i64 = pixels1[i] as i64 - pixels2[i] as i64;
            let ad: i64 = if diff < 0 {
                -diff
            } else {
                diff
            };
            proof {
                assert(0 <= ad <= 0xFFFF_FFFF);
                assert((ad as int) * (ad as int) == sq_diff(pixels1@[i as int], pixels2@[i as int])
                    && (ad as int) * (ad as int) <= 0xFFFF_FFFE_0000_0001) by (nonlinear_arith)
                    requires
                        0 <= ad <= 0xFFFF_FFFF,
                        ad == abs_diff(pixels1@[i as int], pixels2@[i as int]),
                ;
                assert(pixels1@.take(i + 1).drop_last() =~= pixels1@.take(i as int));
                assert(pixels2@.take(i + 1).drop_last() =~= pixels2@.take(i as int));
                vstd::arithmetic::mul::lemma_mul_inequality(
                    i + 1,
                    usize::MAX as int,
                    0xFFFF_FFFE_0000_0001,
                );
            }
            let square: u128 = (ad as u128) * (ad as u128);
            distance = distance + square;
            i = i + 1;
        }
        proof {
            assert(pixels1@.take(length as int) =~= pixels1@);
            assert(pixels2@.take(length as int) =~= pixels2@);
        }
        distance
    }
}

} // verus!
