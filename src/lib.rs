//! Mesh attribute quantization and vertex packing.
//!
//! The library holds the integer side of the pipeline: quantization levels and
//! their biased 16-bit storage, the seeded Fisher–Yates vertex permutation and
//! its inverse, and the interleaved little-endian vertex buffer with its
//! remapped index buffer.

pub mod quantize;
pub mod permutation;
pub mod pack;
