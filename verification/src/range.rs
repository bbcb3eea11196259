//! Safe travel range of the desk and the clamp that enforces it.
//!
//! Every height commanded to the desk passes through [`clamp`]: it is the
//! single safety gate between a computed target and the physical actuator.

use vstd::prelude::*;

verus! {

/// Lowest height, in millimeters, the desk may be commanded to.
pub const MIN_HEIGHT_MM: u16 = 620;

/// Highest height, in millimeters, the desk may be commanded to.
pub const MAX_HEIGHT_MM: u16 = 1270;

/// What [`clamp`] returns: `x` pulled into the closed interval
/// `[MIN_HEIGHT_MM, MAX_HEIGHT_MM]`.
pub open spec fn clamp_spec(x: int) -> int {
    if x < MIN_HEIGHT_MM as int {
        MIN_HEIGHT_MM as int
    } else if x > MAX_HEIGHT_MM as int {
        MAX_HEIGHT_MM as int
    } else {
        x
    }
}

/// Pull a raw height into the desk's safe travel range.
///
/// Total: every integer input yields a height in range, and a height already
/// in range passes through unchanged.
pub fn clamp(pos: i32) -> (r: u16)
    ensures
        r as int == clamp_spec(pos as int),
        MIN_HEIGHT_MM <= r <= MAX_HEIGHT_MM,
{
    if pos < MIN_HEIGHT_MM as i32 {
        MIN_HEIGHT_MM
    } else if pos > MAX_HEIGHT_MM as i32 {
        MAX_HEIGHT_MM
    } else {
        pos as u16
    }
}

/// The clamp is total: its result always lies in the safe range, and it is
/// the identity exactly on the heights that are already in range.
pub proof fn lemma_clamp_total(x: int)
    ensures
        MIN_HEIGHT_MM as int <= clamp_spec(x) <= MAX_HEIGHT_MM as int,
        (clamp_spec(x) == x) <==> (MIN_HEIGHT_MM as int <= x <= MAX_HEIGHT_MM as int),
{
}

/// The clamp is idempotent: clamping an already clamped height changes nothing.
pub proof fn lemma_clamp_idempotent(x: int)
    ensures
        clamp_spec(clamp_spec(x)) == clamp_spec(x),
{
}

} // verus!
