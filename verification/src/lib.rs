//! A dynamic reverse-mode automatic-differentiation engine.
//!
//! A [`Graph`] is an arena of variables, operation instances and call
//! records, each named by its place in a table. Calling an operation on a
//! variable computes the output, has the operation remember the call,
//! captures it in a record and tags the output with that record. `backward`
//! starts from a seeded variable, follows the tags towards the leaves and
//! overwrites the gradient of every ancestor it reaches.
//!
//! Ownership runs one way. An operation owns the records of its calls; a
//! variable's tag only names a record. Releasing an operation leaves the
//! tags in place, and resolving one of them then reports that the producer
//! no longer exists, which the traversal treats as a dead end.
//!
//! The engine is generic in the scalar type. The host hands it the scalar
//! arithmetic as two closures: the unary maps of [`Unary`] and the product.
//! Every contract is stated against the closures' own contracts, so what is
//! proved holds whatever arithmetic the host supplies.
//!
//! - [`elementwise`]: the array kernels, computed by `ndarray`.
//! - [`function`]: operation kinds, forward maps and local derivative rules.
//! - [`variable`]: graph nodes and creator tags.
//! - [`operation`]: operation instances and call records.
//! - [`model`]: the mathematical model of a graph and its invariant.
//! - [`graph`]: the arena, the construction protocol and the traversal.
//! - [`laws`]: what holds of every graph.

pub mod elementwise;
pub mod function;
pub mod variable;
pub mod operation;
pub mod model;
pub mod graph;
pub mod laws;

pub use crate::function::{Kind, Unary};
pub use crate::graph::{Graph, GraphError};
pub use crate::operation::{CallRecord, Operation};
pub use crate::variable::{GradientFunction, Variable};
