//! Where attributes attach to their element's geometry.

use vstd::prelude::*;

verus! {

/// Describes what part of the geometry an attribute attaches to.
#[derive(Debug, Clone, Copy, PartialEq, Eq, Hash, Structural)]
pub enum Location {
    /// The attribute contains one value for each point, vertex, or block corner.
    Vertices,
    /// The attribute contains one value for each line segment, triangle, or block.
    /// For sub-blocked block models that means parent blocks.
    Primitives,
    /// The attribute contains one value for each sub-block in a block model.
    Subblocks,
    /// The attribute contains one value for each sub-element in a composite.
    Elements,
    /// Used by projected texture attributes. The texture is projected onto the element.
    Projected,
    /// Used for category sub-attributes. The attribute contains one value for each category.
    Categories,
}

impl Default for Location {
    /// The default location is `Vertices`.
    fn default() -> (l: Self)
        ensures
            l == Location::Vertices,
    {
        Location::Vertices
    }
}

} // verus!
