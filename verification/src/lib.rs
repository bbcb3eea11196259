//! Position command and telemetry controller for a motorized standing desk.
//!
//! The desk itself is reached over a wireless link by unverified driver code;
//! this library holds the logic that such code must get right: clamping every
//! commanded height into the desk's safe travel range, resolving relative and
//! absolute movement intents against the current height, converting between
//! device units (tenths of a millimeter) and whole millimeters, encoding and
//! decoding persisted height presets, and rendering telemetry events in
//! arrival order.

pub mod decimal;
pub mod range;
pub mod resolver;
pub mod store;
pub mod telemetry;
