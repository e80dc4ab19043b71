//! Array references, their data types, and the constraints that validation puts on them.

use vstd::prelude::*;

use core::marker::PhantomData;

use crate::block_model::SubblockMode;
use crate::write_checks::ArrayWriteCheck;

verus! {

/// The types of data an OMF array can hold.
#[derive(Debug, Clone, Copy, PartialEq, Eq, Structural)]
pub enum DataType {
    /// An image in PNG or JPEG encoding.
    Image,
    /// Floating-point scalar values.
    Scalar,
    /// Vertex locations in 3D. Add the project and element origins.
    Vertex,
    /// Line segments as indices into a vertex array.
    Segment,
    /// Triangles as indices into a vertex array.
    Triangle,
    /// Non-nullable category names.
    Name,
    /// Non-nullable colormap or category colors.
    Gradient,
    /// UV texture coordinates.
    Texcoord,
    /// Discrete color-map boundaries.
    Boundary,
    /// Parent indices and corners of regular sub-blocks.
    RegularSubblock,
    /// Parent indices and corners of free-form sub-blocks.
    FreeformSubblock,
    /// Nullable number values, floating-point or signed integer.
    Number,
    /// Nullable category index values.
    Index,
    /// Nullable 2D or 3D vectors.
    Vector,
    /// Nullable text.
    Text,
    /// Nullable booleans.
    Boolean,
    /// Nullable colors.
    Color,
}

/// Marker types for arrays, tying each one to a [`DataType`].
pub trait ArrayType {
    /// The data type of arrays marked with this type.
    spec fn spec_data_type() -> DataType;

    /// Returns the data type of arrays marked with this type.
    fn data_type() -> (d: DataType)
        ensures
            d == Self::spec_data_type(),
    ;
}

/// The requirements that validation attaches to an array, based on where it is used.
#[derive(Debug, Clone, Copy, PartialEq, Eq)]
pub enum Constraint {
    Image,
    Scalar,
    Size,
    Vertex,
    Segment(u64),
    Triangle(u64),
    Name,
    Gradient,
    Texcoord,
    Boundary,
    RegularSubblock {
        block_count: [u32; 3],
        subblock_count: [u32; 3],
        mode: Option<SubblockMode>,
    },
    FreeformSubblock {
        block_count: [u32; 3],
    },
    Number,
    Index(u64),
    Vector,
    String,
    Boolean,
    Color,
}

impl Constraint {
    /// The array data type that this constraint applies to.
    pub open spec fn spec_data_type(&self) -> DataType {
        match self {
            Constraint::Image => DataType::Image,
            Constraint::Scalar | Constraint::Size => DataType::Scalar,
            Constraint::Vertex => DataType::Vertex,
            Constraint::Segment(_) => DataType::Segment,
            Constraint::Triangle(_) => DataType::Triangle,
            Constraint::Name => DataType::Name,
            Constraint::Gradient => DataType::Gradient,
            Constraint::Texcoord => DataType::Texcoord,
            Constraint::Boundary => DataType::Boundary,
            Constraint::RegularSubblock { .. } => DataType::RegularSubblock,
            Constraint::FreeformSubblock { .. } => DataType::FreeformSubblock,
            Constraint::Number => DataType::Number,
            Constraint::Index(_) => DataType::Index,
            Constraint::Vector => DataType::Vector,
            Constraint::String => DataType::Text,
            Constraint::Boolean => DataType::Boolean,
            Constraint::Color => DataType::Color,
        }
    }

    /// Returns the array data type that this constraint applies to.
    pub fn data_type(&self) -> (d: DataType)
        ensures
            d == self.spec_data_type(),
    {
        match self {
            Constraint::Image => DataType::Image,
            Constraint::Scalar | Constraint::Size => DataType::Scalar,
            Constraint::Vertex => DataType::Vertex,
            Constraint::Segment(_) => DataType::Segment,
            Constraint::Triangle(_) => DataType::Triangle,
            Constraint::Name => DataType::Name,
            Constraint::Gradient => DataType::Gradient,
            Constraint::Texcoord => DataType::Texcoord,
            Constraint::Boundary => DataType::Boundary,
            Constraint::RegularSubblock { .. } => DataType::RegularSubblock,
            Constraint::FreeformSubblock { .. } => DataType::FreeformSubblock,
            Constraint::Number => DataType::Number,
            Constraint::Index(_) => DataType::Index,
            Constraint::Vector => DataType::Vector,
            Constraint::String => DataType::Text,
            Constraint::Boolean => DataType::Boolean,
            Constraint::Color => DataType::Color,
        }
    }
}

/// Refers to an array of data inside the OMF file, or an image.
///
/// The type parameter selects the data type of the array. Validation attaches a
/// [`Constraint`] to the array, and writing attaches the checks that the data written
/// needs to pass once the constraint is known.
#[derive(Debug)]
pub struct Array<T> {
    filename: String,
    item_count: u64,
    constraint: Option<Constraint>,
    checks: Vec<ArrayWriteCheck>,
    marker: PhantomData<T>,
}

impl<T: ArrayType> Array<T> {
    /// The name of the array's file inside the archive.
    pub closed spec fn spec_filename(&self) -> Seq<char> {
        self.filename@
    }

    /// The number of items in the array.
    pub closed spec fn spec_item_count(&self) -> u64 {
        self.item_count
    }

    /// The constraint attached by validation, if validation has run.
    pub closed spec fn spec_constraint(&self) -> Option<Constraint> {
        self.constraint
    }

    /// The checks attached when the array was written.
    pub closed spec fn spec_checks(&self) -> Seq<ArrayWriteCheck> {
        self.checks@
    }

    /// Creates an array reference from a file name and item count.
    pub fn new(filename: String, item_count: u64) -> (a: Self)
        ensures
            a.spec_filename() == filename@,
            a.spec_item_count() == item_count,
            a.spec_constraint() is None,
            a.spec_checks().len() == 0,
    {
        Array { filename, item_count, constraint: None, checks: Vec::new(), marker: PhantomData }
    }

    /// Attaches a constraint. The constraint must be for this array's data type.
    pub fn constrain(&mut self, constraint: Constraint)
        requires
            constraint.spec_data_type() == T::spec_data_type(),
        ensures
            final(self).spec_constraint() == Some(constraint),
            final(self).spec_filename() == old(self).spec_filename(),
            final(self).spec_item_count() == old(self).spec_item_count(),
            final(self).spec_checks() == old(self).spec_checks(),
    {
        self.constraint = Some(constraint);
    }

    /// The constraint attached by validation. Validation must have run.
    pub fn constraint(&self) -> (c: &Constraint)
        requires
            self.spec_constraint() is Some,
        ensures
            Some(*c) == self.spec_constraint(),
    {
        match &self.constraint {
            Some(c) => c,
            None => unreached(),
        }
    }

    /// The constraint attached by validation, if validation has run.
    pub fn try_constraint(&self) -> (c: Option<Constraint>)
        ensures
            c == self.spec_constraint(),
    {
        self.constraint
    }

    /// The filename of the array data within the zip file.
    pub fn filename(&self) -> (f: &str)
        ensures
            f@ == self.spec_filename(),
    {
        self.filename.as_str()
    }

    /// Number of items in the decompressed array. Zero for images.
    pub fn item_count(&self) -> (n: u64)
        ensures
            n == self.spec_item_count(),
    {
        self.item_count
    }

    /// The type of the array, based on `T`.
    pub fn data_type(&self) -> (d: DataType)
        ensures
            d == T::spec_data_type(),
    {
        T::data_type()
    }

    /// Adds checks to be run once the array's constraint is known.
    pub fn add_write_checks(self, checks: Vec<ArrayWriteCheck>) -> (a: Self)
        ensures
            a.spec_checks() == self.spec_checks() + checks@,
            a.spec_filename() == self.spec_filename(),
            a.spec_item_count() == self.spec_item_count(),
            a.spec_constraint() == self.spec_constraint(),
    {
        let mut s = self;
        let mut checks = checks;
        s.checks.append(&mut checks);
        s
    }

    /// The checks attached when the array was written.
    pub fn checks(&self) -> (c: &Vec<ArrayWriteCheck>)
        ensures
            c@ == self.spec_checks(),
    {
        &self.checks
    }
}

} // verus!
