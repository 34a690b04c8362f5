//! The quality filter on the output of motion estimation.
//!
//! A motion estimator answers with one moved point, one status flag and one
//! error for each point it was given. A moved point is kept only if its flag
//! says that the motion was found and its error is below a fixed limit: an
//! estimator can report a motion as found and still be far off, and the
//! error of a motion that was not found means nothing.

use crate::geometry::Point;
use crate::scalar::Scalar;
use vstd::arithmetic::power2::{lemma2_to64, lemma_pow2_adds, pow2};
use vstd::prelude::*;

verus! {

/// The status flag of a point whose motion was found.
pub const STATUS_FOUND: u8 = 1;

/// The bits of the error limit, the number five: a moved point is kept only
/// with an error below it.
pub const MAX_TRACK_ERROR_BITS: u32 = 0x40a0_0000;

/// The error limit as a scalar.
pub open spec fn max_track_error() -> Scalar {
    Scalar { bits: MAX_TRACK_ERROR_BITS }
}

/// The error limit is the number five.
pub proof fn lemma_max_track_error_is_five()
    ensures
        max_track_error().is_finite(),
        max_track_error().numerator() == 5 * pow2(149),
{
    reveal(Scalar::numerator);
    let limit = max_track_error();
    assert(limit.magnitude() == 0x40a0_0000);
    assert(limit.exponent() == 129);
    assert(limit.fraction() == 0x20_0000);
    lemma2_to64();
    lemma_pow2_adds(21, 128);
    assert(0xa0_0000 * pow2(128) == 5 * (pow2(21) * pow2(128))) by (nonlinear_arith)
        requires
            pow2(21) == 0x20_0000,
    ;
}

/// The point at place `i` passes the filter: its motion was found and its
/// error is below the limit. A place without a flag or without an error
/// does not pass.
pub open spec fn is_tracked(status: Seq<u8>, errors: Seq<Scalar>, i: int) -> bool {
    &&& 0 <= i < status.len()
    &&& i < errors.len()
    &&& status[i] == STATUS_FOUND
    &&& errors[i].spec_lt(max_track_error())
}

/// The moved points that pass the filter, in their order.
pub open spec fn spec_track_points(moved: Seq<Point>, status: Seq<u8>, errors: Seq<Scalar>) -> Seq<
    Point,
>
    decreases moved.len(),
{
    if moved.len() == 0 {
        Seq::empty()
    } else {
        let before = spec_track_points(moved.drop_last(), status, errors);
        if is_tracked(status, errors, moved.len() - 1) {
            before.push(moved.last())
        } else {
            before
        }
    }
}

/// The filter never yields more points than it was given.
pub proof fn lemma_track_points_len(moved: Seq<Point>, status: Seq<u8>, errors: Seq<Scalar>)
    ensures
        spec_track_points(moved, status, errors).len() <= moved.len(),
    decreases moved.len(),
{
    if moved.len() > 0 {
        lemma_track_points_len(moved.drop_last(), status, errors);
    }
}

/// A point is among the filtered ones exactly if it stands at a place that
/// passes the filter.
pub proof fn lemma_track_points_members(
    moved: Seq<Point>,
    status: Seq<u8>,
    errors: Seq<Scalar>,
    p: Point,
)
    ensures
        spec_track_points(moved, status, errors).contains(p) <==> exists|i: int|
            0 <= i < moved.len() && is_tracked(status, errors, i) && #[trigger] moved[i] == p,
    decreases moved.len(),
{
    let kept = spec_track_points(moved, status, errors);
    if moved.len() > 0 {
        let shorter = moved.drop_last();
        let before = spec_track_points(shorter, status, errors);
        let last = moved.len() - 1;
        lemma_track_points_members(shorter, status, errors, p);
        if kept.contains(p) {
            let k = choose|k: int| 0 <= k < kept.len() && kept[k] == p;
            if is_tracked(status, errors, last) && k == before.len() {
                assert(moved[last] == p);
            } else {
                assert(before[k] == p);
                let i = choose|i: int|
                    0 <= i < shorter.len() && is_tracked(status, errors, i) && #[trigger] shorter[i]
                        == p;
                assert(moved[i] == p);
            }
        }
        if exists|i: int|
            0 <= i < moved.len() && is_tracked(status, errors, i) && #[trigger] moved[i] == p {
            let i = choose|i: int|
                0 <= i < moved.len() && is_tracked(status, errors, i) && #[trigger] moved[i] == p;
            if i == last {
                assert(kept[before.len() as int] == p);
            } else {
                assert(shorter[i] == p);
                let k = choose|k: int| 0 <= k < before.len() && before[k] == p;
                assert(kept[k] == p);
            }
        }
    }
}

/// Keeps the moved points that were tracked well: those whose status flag
/// is [`STATUS_FOUND`] and whose error is below the limit. The order of the
/// points is kept. A moved point for which `status` or `errors` is too short
/// to have an entry is dropped.
pub fn track_points(moved: &Vec<Point>, status: &Vec<u8>, errors: &Vec<Scalar>) -> (kept: Vec<
    Point,
>)
    ensures
        kept@ == spec_track_points(moved@, status@, errors@),
        kept@.len() <= moved@.len(),
{
    let limit = Scalar::from_bits(MAX_TRACK_ERROR_BITS);
    let mut kept: Vec<Point> = Vec::new();
    let mut i: usize = 0;
    while i < moved.len()
        invariant
            0 <= i <= moved.len(),
            limit == max_track_error(),
            kept@ == spec_track_points(moved@.take(i as int), status@, errors@),
        decreases moved.len() - i,
    {
        proof {
            assert(moved@.take(i + 1).drop_last() =~= moved@.take(i as int));
        }
        if i < status.len() && i < errors.len() && status[i] == STATUS_FOUND && errors[i].lt(
            &limit,
        ) {
            kept.push(moved[i]);
        }
        i += 1;
    }
    proof {
        assert(moved@.take(i as int) =~= moved@);
        lemma_track_points_len(moved@, status@, errors@);
    }
    kept
}

} // verus!
