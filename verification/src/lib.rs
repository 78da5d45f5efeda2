//! Flight-dynamics and steering core of an arcade flight simulator.
//!
//! Every quantity in this crate is a fixed-point number: an `i64` counting
//! thousandths of a unit (`fixed::SCALE`), so `1500` stands for 1.5 units.
//! All arithmetic saturates at a large magnitude bound instead of wrapping,
//! and every operation carries an exact contract over the mathematical
//! integers, so the whole simulation step is verified end to end.
//!
//! The crate is purely computational: reading input devices, rendering and
//! scene management are collaborators that call into it with plain values.

pub mod fixed;
pub mod vec3;
pub mod frame;
pub mod controls;
pub mod target;
pub mod steer;
pub mod flight;
pub mod roster;
