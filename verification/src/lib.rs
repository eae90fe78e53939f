//! Chart geometry engine: scales from data domains to pixel ranges, axis tick
//! generation, and shape layout (area, line, bar, pie) producing renderable
//! geometry as exact rational coordinates.
//!
//! All positions are exact rationals (`rat::Rat`); angles of the pie layout
//! are rational-linear combinations `rad + pi * π`. A host paint layer turns
//! the geometry into pixels.

pub mod axis;
pub mod chart;
pub mod delegate;
pub mod error;
pub mod pie;
pub mod rat;
pub mod scale;
pub mod shape;
