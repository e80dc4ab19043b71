//! The OMF v1 objects that conversion reads: keys, arrays, and the enums stored as text.

use core::marker::PhantomData;

use vstd::prelude::*;

use crate::attribute::Location;

verus! {

/// The lowercase hexadecimal digit for `d`.
pub open spec fn hex_digit(d: nat) -> char {
    if d < 10 {
        (48 + d) as char
    } else {
        (87 + d) as char
    }
}

/// The two lowercase hexadecimal digits of each byte, most significant first.
pub open spec fn hex_bytes(b: Seq<u8>) -> Seq<char>
    decreases b.len(),
{
    if b.len() == 0 {
        Seq::empty()
    } else {
        hex_bytes(b.drop_last()) + seq![hex_digit((b.last() / 16) as nat), hex_digit((b.last() % 16) as nat)]
    }
}

/// The text of a key made from 16 bytes: 32 lowercase hexadecimal digits grouped 8-4-4-4-12
/// by dashes, reading the bytes as one big-endian number.
pub open spec fn key_text(b: Seq<u8>) -> Seq<char> {
    hex_bytes(b.subrange(0, 4)) + seq!['-'] + hex_bytes(b.subrange(4, 6)) + seq!['-'] + hex_bytes(
        b.subrange(6, 8),
    ) + seq!['-'] + hex_bytes(b.subrange(8, 10)) + seq!['-'] + hex_bytes(b.subrange(10, 16))
}

fn hex_digit_str(d: u8) -> (s: &'static str)
    requires
        d < 16,
    ensures
        s@ == seq![hex_digit(d as nat)],
{
    proof {
        reveal_strlit("0");
        reveal_strlit("1");
        reveal_strlit("2");
        reveal_strlit("3");
        reveal_strlit("4");
        reveal_strlit("5");
        reveal_strlit("6");
        reveal_strlit("7");
        reveal_strlit("8");
        reveal_strlit("9");
        reveal_strlit("a");
        reveal_strlit("b");
        reveal_strlit("c");
        reveal_strlit("d");
        reveal_strlit("e");
        reveal_strlit("f");
    }
    match d {
        0 => "0",
        1 => "1",
        2 => "2",
        3 => "3",
        4 => "4",
        5 => "5",
        6 => "6",
        7 => "7",
        8 => "8",
        9 => "9",
        10 => "a",
        11 => "b",
        12 => "c",
        13 => "d",
        14 => "e",
        _ => "f",
    }
}

fn push_hex(out: &mut String, b: &[u8], start: usize, end: usize)
    requires
        start <= end <= b@.len(),
    ensures
        final(out)@ == old(out)@ + hex_bytes(b@.subrange(start as int, end as int)),
{
    let mut i = start;
    while i < end
        invariant
            start <= i <= end <= b@.len(),
            out@ == old(out)@ + hex_bytes(b@.subrange(start as int, i as int)),
        decreases end - i,
    {
        let ghost before = out@;
        out.append(hex_digit_str(b[i] / 16));
        out.append(hex_digit_str(b[i] % 16));
        assert(b@.subrange(start as int, i + 1).drop_last() =~= b@.subrange(start as int, i as int));
        assert(out@ =~= old(out)@ + hex_bytes(b@.subrange(start as int, i + 1)));
        i += 1;
    }
}

/// Stores a string, while `T` can control what types of model as accepted.
#[derive(Debug)]
pub struct Key<T> {
    pub value: String,
    _phantom: PhantomData<T>,
}

impl<T> Key<T> {
    /// The text of the key.
    pub closed spec fn spec_value(&self) -> Seq<char> {
        self.value@
    }

    /// A key holding `value`.
    pub fn new(value: String) -> (k: Self)
        ensures
            k.spec_value() == value@,
    {
        Key { value, _phantom: PhantomData }
    }

    /// The key made from the 16 bytes stored in an OMF v1 header, as [`key_text`] describes.
    pub fn from_bytes(bytes: [u8; 16]) -> (k: Self)
        ensures
            k.spec_value() == key_text(bytes@),
    {
        let mut value = String::new();
        proof {
            reveal_strlit("-");
        }
        push_hex(&mut value, &bytes, 0, 4);
        value.append("-");
        push_hex(&mut value, &bytes, 4, 6);
        value.append("-");
        push_hex(&mut value, &bytes, 6, 8);
        value.append("-");
        push_hex(&mut value, &bytes, 8, 10);
        value.append("-");
        push_hex(&mut value, &bytes, 10, 16);
        assert(value@ =~= key_text(bytes@));
        Key { value, _phantom: PhantomData }
    }
}

/// The creation and modification dates of an OMF v1 object, as text.
#[derive(Debug, Clone)]
pub struct UidModel {
    pub date_created: String,
    pub date_modified: String,
}

/// The name and description of an OMF v1 object.
#[derive(Debug, Clone)]
pub struct ContentModel {
    pub uid: UidModel,
    pub name: String,
    pub description: String,
}

/// Marker for keys of arrays that hold colors.
#[derive(Debug)]
pub struct ColorArrays {}

/// Color data on an element.
#[derive(Debug)]
pub struct ColorData {
    pub content: ContentModel,
    pub location: DataLocation,
    pub array: Key<ColorArrays>,
}

/// Text data on an element.
#[derive(Debug)]
pub struct StringData {
    pub content: ContentModel,
    pub location: DataLocation,
    pub array: Key<StringArray>,
}

/// Where an array lies in an OMF v1 file, and its element type.
#[derive(Debug, Clone, Copy)]
pub struct Array {
    pub start: u64,
    pub length: u64,
    pub dtype: DataType,
}

/// Where an image lies in an OMF v1 file, and its encoding.
#[derive(Debug, Clone, Copy)]
pub struct Image {
    pub start: u64,
    pub length: u64,
    pub dtype: ImageType,
}

/// The element type of an OMF v1 array: little-endian 8-byte floats or integers.
#[derive(Debug, Clone, Copy, PartialEq, Eq, Structural)]
pub enum DataType {
    Float,
    Int,
}

/// The encoding of an OMF v1 image.
#[derive(Debug, Clone, Copy, PartialEq, Eq, Structural)]
pub enum ImageType {
    Png,
}

/// An array of text stored in the JSON of an OMF v1 file.
#[derive(Debug, Clone)]
pub struct StringArray {
    pub uid: UidModel,
    pub array: Vec<String>,
}

/// An array of colors stored in the JSON of an OMF v1 file.
#[derive(Debug, Clone)]
pub struct ColorArray {
    pub uid: UidModel,
    pub array: Vec<[u8; 3]>,
}

/// The kinds of point set.
#[derive(Debug, Clone, Copy, PartialEq, Eq, Structural)]
pub enum PointSetSubtype {
    Point,
    Collar,
    BlastHole,
}

/// The kinds of line set.
#[derive(Debug, Clone, Copy, PartialEq, Eq, Structural)]
pub enum LineSetSubtype {
    Line,
    BoreHole,
}

/// The kinds of surface; there is only one.
#[derive(Debug, Clone, Copy, PartialEq, Eq, Structural)]
pub enum SurfaceSubtype {
    Surface,
}

/// The kinds of volume; there is only one.
#[derive(Debug, Clone, Copy, PartialEq, Eq, Structural)]
pub enum VolumeSubtype {
    Volume,
}

/// Where OMF v1 data is attached to its element.
#[derive(Debug, Clone, Copy, PartialEq, Eq, Structural)]
pub enum DataLocation {
    Vertices,
    Segments,
    Faces,
    Cells,
}

impl Default for PointSetSubtype {
    fn default() -> (r: Self)
        ensures
            r == PointSetSubtype::Point,
    {
        PointSetSubtype::Point
    }
}

impl Default for LineSetSubtype {
    fn default() -> (r: Self)
        ensures
            r == LineSetSubtype::Line,
    {
        LineSetSubtype::Line
    }
}

impl Default for SurfaceSubtype {
    fn default() -> (r: Self)
        ensures
            r == SurfaceSubtype::Surface,
    {
        SurfaceSubtype::Surface
    }
}

impl Default for VolumeSubtype {
    fn default() -> (r: Self)
        ensures
            r == VolumeSubtype::Volume,
    {
        VolumeSubtype::Volume
    }
}

impl PointSetSubtype {
    /// The name stored in the converted element's metadata.
    pub fn name(&self) -> (r: &'static str)
        ensures
            r@ == match self {
                PointSetSubtype::Point => "point"@,
                PointSetSubtype::Collar => "collar"@,
                PointSetSubtype::BlastHole => "blasthole"@,
            },
    {
        match self {
            PointSetSubtype::Point => "point",
            PointSetSubtype::Collar => "collar",
            PointSetSubtype::BlastHole => "blasthole",
        }
    }
}

impl LineSetSubtype {
    /// The name stored in the converted element's metadata.
    pub fn name(&self) -> (r: &'static str)
        ensures
            r@ == match self {
                LineSetSubtype::Line => "line"@,
                LineSetSubtype::BoreHole => "borehole"@,
            },
    {
        match self {
            LineSetSubtype::Line => "line",
            LineSetSubtype::BoreHole => "borehole",
        }
    }
}

impl DataLocation {
    /// The attribute location that data at this location converts to: vertices stay
    /// vertices, and segments, faces, and cells all become primitives.
    pub fn to_location(&self) -> (r: Location)
        ensures
            r == if *self == DataLocation::Vertices {
                Location::Vertices
            } else {
                Location::Primitives
            },
    {
        match self {
            DataLocation::Vertices => Location::Vertices,
            DataLocation::Segments | DataLocation::Faces | DataLocation::Cells => {
                Location::Primitives
            },
        }
    }
}

} // verus!
