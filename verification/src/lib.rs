//! Verified core of a procedural heightfield generator.
//!
//! The library covers the parts of terrain generation that are pure
//! integer/structural logic: row-major grid indexing, the running
//! minimum/maximum tracking performed while a field is filled, and the
//! deterministic triangulation of a grid into a duplicated-vertex mesh.
//!
//! Height samples travel through the library as *order codes*: unsigned
//! 64-bit values whose numeric order matches the order of the underlying
//! scalar samples.  The host that produces the samples owns the encoding;
//! everything the library states about extrema and storage is in terms of
//! these codes, so it holds for the scalar samples as well.

use vstd::prelude::*;

pub mod field;
pub mod grid;
pub mod mesh;

verus! {

/// Why a generation step was refused.  All failures are detected before any
/// partial result is produced.
#[derive(Clone, Copy, Debug, PartialEq, Eq, Structural)]
pub enum BuildError {
    /// The grid is unusable for the requested operation: a field needs at
    /// least one slot in each direction and as many samples as slots, a mesh
    /// needs at least two slots in each direction, and the mesh buffers must
    /// fit in a machine word.
    InvalidDimensions,
    /// A sampling parameter is unusable (a zero or non-finite value).
    InvalidParameter,
    /// The underlying coherent-noise evaluator failed; never expected for
    /// finite inputs and surfaced as a fatal condition.
    NoiseSourceFailure,
}

} // verus!
