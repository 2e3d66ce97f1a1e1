//! Mesh-construction mode selector consumed by callers that turn a
//! triangulation into a renderable mesh.

use vstd::prelude::*;

verus! {

/// How a mesh-building caller derives per-vertex data from the triangles:
/// `Simple` keeps one entry per face corner, `Mean` merges the entries of a
/// vertex shared by adjacent faces.
#[derive(Clone, Copy, Debug, PartialEq, Eq, Structural)]
pub enum ObjectConfig {
    Simple,
    Mean,
}

} // verus!
