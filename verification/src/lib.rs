//! Supervisory controller for a small fleet of GPU mining rigs.
//!
//! The crate holds the control plane of a two-program system: a supervisor
//! that drives per-rig power buttons and ventilation relays over GPIO, and an
//! agent that assembles a health snapshot of one rig.  Everything that
//! decides — the power-cycle state machine, the ventilation hysteresis, the
//! sensor spike filter, the health heuristics, and the snapshot wire codec —
//! lives here and is verified.  Reading hardware lines, running subprocesses
//! and moving bytes over HTTP belong to the surrounding binaries, which hand
//! this crate plain values and carry out the plans it returns.

pub mod agent;
pub mod config;
pub mod num;
pub mod rig;
pub mod sensor;
pub mod strutil;
pub mod vent;
pub mod wire;
