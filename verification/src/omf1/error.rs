//! Errors specific to OMF v1 conversion.

use vstd::prelude::*;

verus! {

/// The types of object allowed at the top level of OMF v1.
#[derive(Debug, Clone, Copy, PartialEq, Eq, Structural)]
pub enum ModelType {
    Project,
    PointSetElement,
    PointSetGeometry,
    LineSetElement,
    LineSetGeometry,
    SurfaceElement,
    SurfaceGeometry,
    SurfaceGridGeometry,
    VolumeElement,
    VolumeGridGeometry,
    ScalarColormap,
    DateTimeColormap,
    Legend,
    ScalarData,
    DateTimeData,
    Vector2Data,
    Vector3Data,
    ColorData,
    StringData,
    MappedData,
    ImageTexture,
    ScalarArray,
    Vector2Array,
    Vector3Array,
    Int2Array,
    Int3Array,
    StringArray,
    DateTimeArray,
    ColorArray,
}

impl ModelType {
    /// The name of the model type, as OMF v1 writes it.
    pub open spec fn spec_name(&self) -> Seq<char> {
        match self {
            ModelType::Project => "Project"@,
            ModelType::PointSetElement => "PointSetElement"@,
            ModelType::PointSetGeometry => "PointSetGeometry"@,
            ModelType::LineSetElement => "LineSetElement"@,
            ModelType::LineSetGeometry => "LineSetGeometry"@,
            ModelType::SurfaceElement => "SurfaceElement"@,
            ModelType::SurfaceGeometry => "SurfaceGeometry"@,
            ModelType::SurfaceGridGeometry => "SurfaceGridGeometry"@,
            ModelType::VolumeElement => "VolumeElement"@,
            ModelType::VolumeGridGeometry => "VolumeGridGeometry"@,
            ModelType::ScalarColormap => "ScalarColormap"@,
            ModelType::DateTimeColormap => "DateTimeColormap"@,
            ModelType::Legend => "Legend"@,
            ModelType::ScalarData => "ScalarData"@,
            ModelType::DateTimeData => "DateTimeData"@,
            ModelType::Vector2Data => "Vector2Data"@,
            ModelType::Vector3Data => "Vector3Data"@,
            ModelType::ColorData => "ColorData"@,
            ModelType::StringData => "StringData"@,
            ModelType::MappedData => "MappedData"@,
            ModelType::ImageTexture => "ImageTexture"@,
            ModelType::ScalarArray => "ScalarArray"@,
            ModelType::Vector2Array => "Vector2Array"@,
            ModelType::Vector3Array => "Vector3Array"@,
            ModelType::Int2Array => "Int2Array"@,
            ModelType::Int3Array => "Int3Array"@,
            ModelType::StringArray => "StringArray"@,
            ModelType::DateTimeArray => "DateTimeArray"@,
            ModelType::ColorArray => "ColorArray"@,
        }
    }

    /// Returns the name of the model type.
    pub fn name(&self) -> (r: &'static str)
        ensures
            r@ == self.spec_name(),
    {
        match self {
            ModelType::Project => "Project",
            ModelType::PointSetElement => "PointSetElement",
            ModelType::PointSetGeometry => "PointSetGeometry",
            ModelType::LineSetElement => "LineSetElement",
            ModelType::LineSetGeometry => "LineSetGeometry",
            ModelType::SurfaceElement => "SurfaceElement",
            ModelType::SurfaceGeometry => "SurfaceGeometry",
            ModelType::SurfaceGridGeometry => "SurfaceGridGeometry",
            ModelType::VolumeElement => "VolumeElement",
            ModelType::VolumeGridGeometry => "VolumeGridGeometry",
            ModelType::ScalarColormap => "ScalarColormap",
            ModelType::DateTimeColormap => "DateTimeColormap",
            ModelType::Legend => "Legend",
            ModelType::ScalarData => "ScalarData",
            ModelType::DateTimeData => "DateTimeData",
            ModelType::Vector2Data => "Vector2Data",
            ModelType::Vector3Data => "Vector3Data",
            ModelType::ColorData => "ColorData",
            ModelType::StringData => "StringData",
            ModelType::MappedData => "MappedData",
            ModelType::ImageTexture => "ImageTexture",
            ModelType::ScalarArray => "ScalarArray",
            ModelType::Vector2Array => "Vector2Array",
            ModelType::Vector3Array => "Vector3Array",
            ModelType::Int2Array => "Int2Array",
            ModelType::Int3Array => "Int3Array",
            ModelType::StringArray => "StringArray",
            ModelType::DateTimeArray => "DateTimeArray",
            ModelType::ColorArray => "ColorArray",
        }
    }
}

/// Errors specific to the OMF v1 conversion process.
///
/// Converted fails may also fail validation during conversion, as the checks in OMF v1 weren't
/// as strict.
#[derive(Debug)]
pub enum Omf1Error {
    /// Tried to load a file that is not in OMF1 format.
    NotOmf1,
    /// The OMF version is not supported.
    UnsupportedVersion { version: String },
    /// A record in the JSON data has the wrong type.
    WrongType { found: ModelType, expected: &'static [ModelType] },
    /// A record is missing from the JSON data.
    MissingItem { key: String },
    /// Non-integer values from in what should be an integer array.
    NonIntegerArray,
    /// An integer index is invalid.
    IndexOutOfRange { index: i64 },
    /// Forwards `serde_json` errors when deserializing OMF1, as the error's message.
    DeserializationFailed(String),
}

/// A list of model type names in words: `none`, `A`, `A or B`, or `A, B, or C`.
pub open spec fn spec_join(types: Seq<ModelType>) -> Seq<char> {
    if types.len() == 0 {
        "none"@
    } else if types.len() == 1 {
        types[0].spec_name()
    } else if types.len() == 2 {
        types[0].spec_name() + " or "@ + types[1].spec_name()
    } else {
        comma_list(types.drop_last()) + ", or "@ + types.last().spec_name()
    }
}

/// The names of `types` separated by `, `.
pub open spec fn comma_list(types: Seq<ModelType>) -> Seq<char>
    decreases types.len(),
{
    if types.len() == 0 {
        Seq::empty()
    } else if types.len() == 1 {
        types[0].spec_name()
    } else {
        comma_list(types.drop_last()) + ", "@ + types.last().spec_name()
    }
}

/// Lists model type names in words, as [`spec_join`] describes.
pub fn join(types: &[ModelType]) -> (r: String)
    ensures
        r@ == spec_join(types@),
{
    proof {
        reveal_strlit("none");
        reveal_strlit(" or ");
        reveal_strlit(", or ");
        reveal_strlit(", ");
    }
    let n = types.len();
    if n == 0 {
        return String::from_str("none");
    }
    if n == 1 {
        return String::from_str(types[0].name());
    }
    if n == 2 {
        let mut s = String::from_str(types[0].name());
        s.append(" or ");
        s.append(types[1].name());
        return s;
    }
    let mut s = String::from_str(types[0].name());
    let mut i: usize = 1;
    while i < n - 1
        invariant
            1 <= i <= n - 1,
            n == types@.len(),
            n > 2,
            s@ == comma_list(types@.take(i as int)),
        decreases n - 1 - i,
    {
        s.append(", ");
        s.append(types[i].name());
        assert(types@.take(i + 1).drop_last() =~= types@.take(i as int));
        i += 1;
    }
    assert(types@.take(i as int) =~= types@.drop_last());
    s.append(", or ");
    s.append(types[n - 1].name());
    s
}

} // verus!
