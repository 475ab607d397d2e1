#![verifier::loop_isolation(false)]
//! Decision core of a turn-based fleet-control agent.
//!
//! All geometry is carried out in exact fixed-point integer arithmetic
//! (coordinates, radii and velocities are scaled by `consts::FP_ONE`),
//! so every collision decision is a precise rational-arithmetic test
//! rather than a floating-point approximation.

pub mod consts;
pub mod geom;
pub mod trig;
pub mod entities;
pub mod catalog;
pub mod navigate;
pub mod value;
pub mod alloc_turn;
pub mod parse;
pub mod game;
