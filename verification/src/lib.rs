//! A verified evaluation engine for trees of signal-generating samplers.
//!
//! A configuration describes, in data, how shapes move on screen: each shape
//! carries an enabling scalar sampler, a list of two-dimensional movement samplers, and a
//! drawable payload whose parameters may themselves be samplers. Once per
//! frame the embedding program builds an evaluation context (elapsed time, a
//! named variable registry, a snapshot of the input devices) and asks each
//! shape for its pixel position. Scalar values are opaque 32-bit words;
//! every arithmetic step goes through the context's [`scalar::ScalarArith`]
//! port, so the proofs hold for any arithmetic supplied there, with IEEE-754
//! single precision as the intended one.

pub mod circle;
pub mod gen_shape;
pub mod hash_string;
pub mod linear_samplers;
pub mod movement;
pub mod scalar;
pub mod variable_holder;
