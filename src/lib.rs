//! A small 2D collision simulator: circular particles and static line
//! segments under gravity, in exact fixed-point arithmetic.
//!
//! Coordinates, velocities, radii and the time step are integers counting
//! thousandths of a world unit (`vector::SCALE`); restitution coefficients
//! count thousandths too. Every rounding is downwards and is part of the
//! stated results.

pub mod arith;
pub mod entity;
pub mod laws;
pub mod response;
pub mod scan;
pub mod sim;
pub mod vector;
