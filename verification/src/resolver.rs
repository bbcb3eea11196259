//! Position command resolver: turn a movement intent and the desk's current
//! height into a safe, clamped target and the device-unit value to command.
//!
//! The desk reports height in device units (tenths of a millimeter); users
//! speak in whole millimeters. Every resolved target passes through the range
//! clamp, whichever kind of intent produced it.

use vstd::prelude::*;
use crate::range::{clamp, clamp_spec, MAX_HEIGHT_MM, MIN_HEIGHT_MM};

verus! {

/// One user movement intent: a signed offset from the current height, or an
/// absolute target height, both in millimeters.
#[derive(Clone, Copy, PartialEq, Eq, Structural, Debug)]
pub enum MoveIntent {
    /// Move by this many millimeters: positive is up, negative is down.
    Relative { delta_mm: i16 },
    /// Move to this height, ignoring where the desk stands now.
    Absolute { target_mm: u16 },
}

/// The raw, still unclamped target of an intent against a current height.
pub open spec fn raw_target(current_mm: int, intent: MoveIntent) -> int {
    match intent {
        MoveIntent::Relative { delta_mm } => current_mm + delta_mm,
        MoveIntent::Absolute { target_mm } => target_mm as int,
    }
}

/// The height actually commanded: the raw target pulled into the safe range.
pub open spec fn resolved_target(current_mm: int, intent: MoveIntent) -> int {
    clamp_spec(raw_target(current_mm, intent))
}

/// Resolve an intent against the current height into a clamped target height.
pub fn resolve_target(current_mm: u16, intent: MoveIntent) -> (t: u16)
    ensures
        t as int == resolved_target(current_mm as int, intent),
        MIN_HEIGHT_MM <= t <= MAX_HEIGHT_MM,
{
    match intent {
        MoveIntent::Relative { delta_mm } => clamp(current_mm as i32 + delta_mm as i32),
        MoveIntent::Absolute { target_mm } => clamp(target_mm as i32),
    }
}

/// Everything one move command needs, computed from the desk's reported
/// position and the user's intent.
#[derive(Clone, Copy, PartialEq, Eq, Structural, Debug)]
pub struct MovePlan {
    /// The height before the move, in whole millimeters.
    pub current_mm: u16,
    /// The clamped target height, in whole millimeters.
    pub target_mm: u16,
    /// The same target in device units, ready for the move command.
    pub target_device: u16,
}

/// Millimeters from device units: divide by ten, truncating toward zero.
/// The lost sub-millimeter precision is intentional.
pub fn device_to_mm(device_pos: u16) -> (mm: u16)
    ensures
        mm == device_pos / 10,
{
    device_pos / 10
}

/// Plan one move: read the current height out of the device value, resolve
/// the intent against it, clamp, and convert the target back to device units.
///
/// Both heights of the plan are reported to the user before the move is
/// issued; only `target_device` ever reaches the desk, so every commanded
/// height is a clamped one.
pub fn plan_move(device_pos: u16, intent: MoveIntent) -> (p: MovePlan)
    ensures
        p.current_mm == device_pos / 10,
        p.target_mm as int == resolved_target(p.current_mm as int, intent),
        MIN_HEIGHT_MM <= p.target_mm <= MAX_HEIGHT_MM,
        p.target_device == 10 * p.target_mm,
{
    let current_mm = device_to_mm(device_pos);
    let target_mm = resolve_target(current_mm, intent);
    let target_device = 10 * target_mm;
    MovePlan { current_mm, target_mm, target_device }
}

/// Relative-move composition: against current height `h`, a relative move by
/// `d` resolves to exactly `clamp(h + d)`.
pub proof fn lemma_relative_composition(h: int, d: i16)
    ensures
        resolved_target(h, MoveIntent::Relative { delta_mm: d }) == clamp_spec(h + d),
{
}

/// Absolute-move independence: an absolute move to `t` resolves to
/// `clamp(t)`, whatever the current height is.
pub proof fn lemma_absolute_independent(h1: int, h2: int, t: u16)
    ensures
        resolved_target(h1, MoveIntent::Absolute { target_mm: t }) == clamp_spec(t as int),
        resolved_target(h1, MoveIntent::Absolute { target_mm: t }) == resolved_target(
            h2,
            MoveIntent::Absolute { target_mm: t },
        ),
{
}

} // verus!
