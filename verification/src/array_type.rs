//! Marker types for the different kinds of array.

use vstd::prelude::*;

use crate::array::{ArrayType, DataType};

verus! {

/// Array marker: An image in PNG or JPEG encoding.
#[derive(Debug, Default, Clone, Copy, PartialEq, Eq, Structural)]
pub struct Image {}

impl ArrayType for Image {
    open spec fn spec_data_type() -> DataType {
        DataType::Image
    }

    fn data_type() -> (d: DataType) {
        DataType::Image
    }
}

/// Array marker: Floating-point scalar values.
#[derive(Debug, Default, Clone, Copy, PartialEq, Eq, Structural)]
pub struct Scalar {}

impl ArrayType for Scalar {
    open spec fn spec_data_type() -> DataType {
        DataType::Scalar
    }

    fn data_type() -> (d: DataType) {
        DataType::Scalar
    }
}

/// Array marker: Vertex locations in 3D.
#[derive(Debug, Default, Clone, Copy, PartialEq, Eq, Structural)]
pub struct Vertex {}

impl ArrayType for Vertex {
    open spec fn spec_data_type() -> DataType {
        DataType::Vertex
    }

    fn data_type() -> (d: DataType) {
        DataType::Vertex
    }
}

/// Array marker: Line segments as indices into a vertex array.
#[derive(Debug, Default, Clone, Copy, PartialEq, Eq, Structural)]
pub struct Segment {}

impl ArrayType for Segment {
    open spec fn spec_data_type() -> DataType {
        DataType::Segment
    }

    fn data_type() -> (d: DataType) {
        DataType::Segment
    }
}

/// Array marker: Triangles as indices into a vertex array.
#[derive(Debug, Default, Clone, Copy, PartialEq, Eq, Structural)]
pub struct Triangle {}

impl ArrayType for Triangle {
    open spec fn spec_data_type() -> DataType {
        DataType::Triangle
    }

    fn data_type() -> (d: DataType) {
        DataType::Triangle
    }
}

/// Array marker: Non-nullable category names.
#[derive(Debug, Default, Clone, Copy, PartialEq, Eq, Structural)]
pub struct Name {}

impl ArrayType for Name {
    open spec fn spec_data_type() -> DataType {
        DataType::Name
    }

    fn data_type() -> (d: DataType) {
        DataType::Name
    }
}

/// Array marker: Non-nullable colormap or category colors.
#[derive(Debug, Default, Clone, Copy, PartialEq, Eq, Structural)]
pub struct Gradient {}

impl ArrayType for Gradient {
    open spec fn spec_data_type() -> DataType {
        DataType::Gradient
    }

    fn data_type() -> (d: DataType) {
        DataType::Gradient
    }
}

/// Array marker: UV texture coordinates.
#[derive(Debug, Default, Clone, Copy, PartialEq, Eq, Structural)]
pub struct Texcoord {}

impl ArrayType for Texcoord {
    open spec fn spec_data_type() -> DataType {
        DataType::Texcoord
    }

    fn data_type() -> (d: DataType) {
        DataType::Texcoord
    }
}

/// Array marker: Discrete color-map boundaries.
#[derive(Debug, Default, Clone, Copy, PartialEq, Eq, Structural)]
pub struct Boundary {}

impl ArrayType for Boundary {
    open spec fn spec_data_type() -> DataType {
        DataType::Boundary
    }

    fn data_type() -> (d: DataType) {
        DataType::Boundary
    }
}

/// Array marker: Parent indices and corners of regular sub-blocks.
#[derive(Debug, Default, Clone, Copy, PartialEq, Eq, Structural)]
pub struct RegularSubblock {}

impl ArrayType for RegularSubblock {
    open spec fn spec_data_type() -> DataType {
        DataType::RegularSubblock
    }

    fn data_type() -> (d: DataType) {
        DataType::RegularSubblock
    }
}

/// Array marker: Parent indices and corners of free-form sub-blocks.
#[derive(Debug, Default, Clone, Copy, PartialEq, Eq, Structural)]
pub struct FreeformSubblock {}

impl ArrayType for FreeformSubblock {
    open spec fn spec_data_type() -> DataType {
        DataType::FreeformSubblock
    }

    fn data_type() -> (d: DataType) {
        DataType::FreeformSubblock
    }
}

/// Array marker: Nullable number values, floating-point or signed integer.
#[derive(Debug, Default, Clone, Copy, PartialEq, Eq, Structural)]
pub struct Number {}

impl ArrayType for Number {
    open spec fn spec_data_type() -> DataType {
        DataType::Number
    }

    fn data_type() -> (d: DataType) {
        DataType::Number
    }
}

/// Array marker: Nullable category index values.
#[derive(Debug, Default, Clone, Copy, PartialEq, Eq, Structural)]
pub struct Index {}

impl ArrayType for Index {
    open spec fn spec_data_type() -> DataType {
        DataType::Index
    }

    fn data_type() -> (d: DataType) {
        DataType::Index
    }
}

/// Array marker: Nullable 2D or 3D vectors.
#[derive(Debug, Default, Clone, Copy, PartialEq, Eq, Structural)]
pub struct Vector {}

impl ArrayType for Vector {
    open spec fn spec_data_type() -> DataType {
        DataType::Vector
    }

    fn data_type() -> (d: DataType) {
        DataType::Vector
    }
}

/// Array marker: Nullable text.
#[derive(Debug, Default, Clone, Copy, PartialEq, Eq, Structural)]
pub struct Text {}

impl ArrayType for Text {
    open spec fn spec_data_type() -> DataType {
        DataType::Text
    }

    fn data_type() -> (d: DataType) {
        DataType::Text
    }
}

/// Array marker: Nullable booleans.
#[derive(Debug, Default, Clone, Copy, PartialEq, Eq, Structural)]
pub struct Boolean {}

impl ArrayType for Boolean {
    open spec fn spec_data_type() -> DataType {
        DataType::Boolean
    }

    fn data_type() -> (d: DataType) {
        DataType::Boolean
    }
}

/// Array marker: Nullable colors.
#[derive(Debug, Default, Clone, Copy, PartialEq, Eq, Structural)]
pub struct Color {}

impl ArrayType for Color {
    open spec fn spec_data_type() -> DataType {
        DataType::Color
    }

    fn data_type() -> (d: DataType) {
        DataType::Color
    }
}

} // verus!
