//! Exact, dimension-aware numeric computation: an arbitrary-precision
//! rational magnitude paired with a unit of measurement, with arithmetic,
//! unit simplification, and conversion between compatible units, all
//! without loss of precision.
//!
//! The layers, leaves first: [`scalable_integer`] holds an exact integer
//! that widens across three precision tiers; [`rational`] builds exact
//! fractions on it; [`unit`] models units as atoms and compound fractions
//! of units with flatten/simplify algebra; [`catalog`] carries the fixed
//! affine conversion table into SI form; [`quantity`] composes a magnitude
//! with a unit; [`render`] produces the textual symbols and names; and
//! [`laws`] states and proves the algebraic laws the library obeys.

pub mod bigint;
pub mod catalog;
pub mod gcd;
pub mod laws;
pub mod quantity;
pub mod rational;
pub mod render;
pub mod scalable_integer;
pub mod unit;
