//! A reverse-mode automatic-differentiation engine for scalar expressions.
//!
//! Expressions are built eagerly into an arena of nodes; each node records
//! its forward value, the operation that produced it and handles to its
//! operands.  For a chosen output node, the engine computes the partial
//! derivative of that output with respect to every node in the graph by
//! replaying each node's local backward rule in reverse topological order,
//! accumulating gradients additively.
//!
//! Scalars are exact rationals, so every forward value and every gradient
//! is computed without rounding; an operation whose exact result does not
//! fit the fixed-width representation reports an overflow error instead of
//! silently losing precision.

pub mod engine;
pub mod graph;
pub mod laws;
pub mod rational;
pub mod render;
pub mod text;
