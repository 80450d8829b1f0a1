//! The projection kinds a video track can declare.

use vstd::prelude::*;

verus! {

/// How a spherical video is mapped onto the rectangular frame; the first
/// variant marks an absent Projection element.
#[derive(Debug, Clone, Copy, PartialEq, Eq, Structural)]
pub enum ProjectionType {
    kTypeNotPresent,
    kRectangular,
    kEquirectangular,
    kCubeMap,
    kMesh,
}

} // verus!
