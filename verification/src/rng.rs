use vstd::prelude::*;
use crate::config::MAX_DIM;

verus! {

/// Relies on macroquad::rand::gen_range (the quad-rand generator). For
/// integer types it computes `lo + (hi - lo) * u` in f64 and truncates,
/// with `u` a 32-bit draw divided by 2^32, so `u <= 1 - 2^-32`. The range
/// is restricted to `lo == 0`: there the value before truncation is
/// `hi * u`, and since `hi <= MAX_DIM` is exact in f64 and
/// `hi * u <= hi - hi * 2^-32` rounds to at most `hi - hi * 2^-32 +
/// hi * 2^-53`, it stays strictly below `hi`, so the result lies in
/// `[0, hi)`. (For a nonzero `lo` the final addition could round up to
/// `hi` exactly, so no more than this is claimed.)
#[verifier::external_body]
pub(crate) fn random_in_range(lo: i64, hi: i64) -> (r: i64)
    requires
        lo == 0,
        0 < hi <= MAX_DIM,
    ensures
        lo <= r < hi,
{
    macroquad::rand::gen_range(lo, hi)
}

} // verus!
