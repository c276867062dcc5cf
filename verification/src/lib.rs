//! Fixed-step forward Euler integration of scalar ordinary differential
//! equations `dy/dx = f(x, y)`, for a family of starts, with the geometry of
//! the chart that shows the results.
//!
//! Numbers are IEEE 754 binary64 values carried by their bit patterns
//! ([`scalar::Scalar`]). What depends on the pattern alone is computed here
//! and proved: classification, comparison, the conversion of an index, the
//! stopping rule, the stepping loop, the order of a batch and the extent of
//! its points. Rounded sums and products, and the right-hand side `f`, are
//! function values that the caller hands in; the contracts say what is done
//! with the values that those functions return.
//!
//! - [`scalar`], [`value`]: bit patterns, their order and the numbers they
//!   stand for.
//! - [`point`], [`policy`]: states of an integration and the rule that ends
//!   it.
//! - [`integrate`]: one trajectory.
//! - [`config`], [`error`], [`batch`]: a run of many trajectories.
//! - [`bounds`], [`palette`], [`chart`]: what a renderer needs to draw a run.
pub mod batch;
pub mod bounds;
pub mod chart;
pub mod config;
pub mod error;
pub mod integrate;
pub mod palette;
pub mod point;
pub mod policy;
pub mod scalar;
pub mod value;
