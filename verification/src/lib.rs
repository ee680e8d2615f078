//! A third-person character controller with an orbit camera, simulated on
//! bit patterns.
//!
//! The simulation has to come to the same result on every machine that takes
//! part in it. So its numbers are IEEE 754 values held by their bits, and its
//! arithmetic is done here, in integers, and proved to round as the standard
//! says. On that ground stand the tick of the character, the camera rig, the
//! reading of the controls and of the key bindings, and what is sent to and
//! taken from other players.
pub mod actors;
pub mod arith;
pub mod arith64;
pub mod arith_laws;
pub mod camera;
pub mod closeness;
pub mod config;
pub mod double;
pub mod flight;
pub mod ieee;
pub mod input;
pub mod keys;
pub mod motion;
pub mod net;
pub mod remap;
pub mod rounding;
pub mod rounding64;
pub mod single;
pub mod vector;
