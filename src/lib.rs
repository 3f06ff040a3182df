//! A small two-layer perceptron for handwritten digits: the parameter model and its
//! tensor bundle, the on-disk tensor codec, the pre-save finiteness check and the
//! canvas-to-tensor preprocessing pipeline.
//!
//! Parameters are carried as the IEEE-754 bit patterns of their single-precision
//! values, so that every step here is exact and the persisted bytes round-trip bit
//! for bit.

pub mod float_bits;
pub mod model;
pub mod codec;
pub mod canvas;
