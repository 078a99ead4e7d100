//! Code generation for typed loads and stores on byte-addressable storage
//! buffers, as an HLSL backend needs them.
//!
//! The target dialect offers only raw `Load`/`Store` primitives at byte
//! offsets, while the compiler's own intermediate representation is typed.
//! This crate translates "read or write a typed value through a pointer into
//! such a buffer" into a deterministic sequence of primitive byte-offset
//! operations, decomposing nested composites (scalars, vectors, matrices,
//! fixed-size arrays, structs) and inserting the transpose corrections that
//! row-major matrix storage requires.
//!
//! - [`ir`] models the slice of the intermediate representation this core
//!   reads: type shapes with precomputed layout, expressions forming pointer
//!   access chains, and the per-statement context of resolved types and
//!   rendered expression texts.
//! - [`text`] renders decimal numbers and indentation.
//! - [`storage`] holds the generator itself: the access chain builder, the
//!   address emitter, and the load and store sequencers.
//! - [`laws`] states and proves the structural guarantees of the emitted
//!   code: the matrix transpose corrections cancel, element operations land
//!   at the expected offsets, and an address sums one term per chain step.

pub mod ir;
pub mod laws;
pub mod storage;
pub mod text;
