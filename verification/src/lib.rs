//! Spirograph curves in exact integer arithmetic.
//!
//! A small circle rolls, without slipping, inside a larger one, and a pen
//! mounted on the small circle traces a curve. Lengths are whole numbers of
//! a unit that the caller chooses, angles are whole ticks of which
//! [`arith::TURN`] make a full turn, and the only transcendental input is a
//! table of unit directions, which the library checks before it uses it.

pub mod arith;
pub mod geom;
pub mod error;
pub mod trig;
pub mod path;
pub mod circle;
pub mod spiro;
pub mod color;
pub mod canvas;
pub mod shape;
