//! The Parquet schemas that each kind of array accepts, with a value naming each one so that
//! the reader knows how to decode the columns.

use vstd::prelude::*;

use crate::error::Error;
use crate::pq_schema::{
    check_result, column, column_of, columns_typed, deep_seq, items_view, group, group_of, message, message_of, LogicalType,
    PhysicalType, PqArrayMatcher, Repetition, SchemaType, SchemaView, TimeUnit,
};

verus! {

/// The accepted Parquet schemas of scalar arrays.
#[derive(Debug, Clone, Copy, PartialEq, Eq, Structural)]
pub enum Scalar {
    F32,
    F64,
}

impl Scalar {
    /// The accepted schemas, each with the value that names it.
    pub open spec fn accepted() -> Seq<(Scalar, SchemaView)> {
        seq![
            (Scalar::F32, message(seq![column("scalar"@, Repetition::Required, PhysicalType::Float, None)])),
            (Scalar::F64, message(seq![column("scalar"@, Repetition::Required, PhysicalType::Double, None)])),
        ]
    }

    /// A matcher for the accepted schemas.
    pub fn matcher() -> (m: PqArrayMatcher<Scalar>)
        ensures
            m@ == Self::accepted(),
    {
        let f0 = vec![column_of("scalar", Repetition::Required, PhysicalType::Float, None)];
        assert(deep_seq(f0@) =~~= seq![column("scalar"@, Repetition::Required, PhysicalType::Float, None)]);
        let s0 = message_of(f0);
        let f1 = vec![column_of("scalar", Repetition::Required, PhysicalType::Double, None)];
        assert(deep_seq(f1@) =~~= seq![column("scalar"@, Repetition::Required, PhysicalType::Double, None)]);
        let s1 = message_of(f1);
        let items = vec![(Scalar::F32, s0), (Scalar::F64, s1)];
        assert(items_view(items@) =~~= Self::accepted());
        PqArrayMatcher::new(items)
    }

    /// Checks the schema of a file, returning which accepted schema it has.
    pub fn check(schema: &SchemaType) -> (r: Result<Scalar, Error>)
        ensures
            check_result(Self::accepted(), schema.deep(), r),
    {
        Self::matcher().check(schema)
    }
}

/// The accepted Parquet schemas of vertex arrays.
#[derive(Debug, Clone, Copy, PartialEq, Eq, Structural)]
pub enum Vertex {
    F32,
    F64,
}

impl Vertex {
    /// The accepted schemas, each with the value that names it.
    pub open spec fn accepted() -> Seq<(Vertex, SchemaView)> {
        seq![
            (Vertex::F32, message(seq![column("x"@, Repetition::Required, PhysicalType::Float, None), column("y"@, Repetition::Required, PhysicalType::Float, None), column("z"@, Repetition::Required, PhysicalType::Float, None)])),
            (Vertex::F64, message(seq![column("x"@, Repetition::Required, PhysicalType::Double, None), column("y"@, Repetition::Required, PhysicalType::Double, None), column("z"@, Repetition::Required, PhysicalType::Double, None)])),
        ]
    }

    /// A matcher for the accepted schemas.
    pub fn matcher() -> (m: PqArrayMatcher<Vertex>)
        ensures
            m@ == Self::accepted(),
    {
        let f0 = vec![column_of("x", Repetition::Required, PhysicalType::Float, None), column_of("y", Repetition::Required, PhysicalType::Float, None), column_of("z", Repetition::Required, PhysicalType::Float, None)];
        assert(deep_seq(f0@) =~~= seq![column("x"@, Repetition::Required, PhysicalType::Float, None), column("y"@, Repetition::Required, PhysicalType::Float, None), column("z"@, Repetition::Required, PhysicalType::Float, None)]);
        let s0 = message_of(f0);
        let f1 = vec![column_of("x", Repetition::Required, PhysicalType::Double, None), column_of("y", Repetition::Required, PhysicalType::Double, None), column_of("z", Repetition::Required, PhysicalType::Double, None)];
        assert(deep_seq(f1@) =~~= seq![column("x"@, Repetition::Required, PhysicalType::Double, None), column("y"@, Repetition::Required, PhysicalType::Double, None), column("z"@, Repetition::Required, PhysicalType::Double, None)]);
        let s1 = message_of(f1);
        let items = vec![(Vertex::F32, s0), (Vertex::F64, s1)];
        assert(items_view(items@) =~~= Self::accepted());
        PqArrayMatcher::new(items)
    }

    /// Checks the schema of a file, returning which accepted schema it has.
    pub fn check(schema: &SchemaType) -> (r: Result<Vertex, Error>)
        ensures
            check_result(Self::accepted(), schema.deep(), r),
    {
        Self::matcher().check(schema)
    }
}

/// The accepted Parquet schemas of segment arrays.
#[derive(Debug, Clone, Copy, PartialEq, Eq, Structural)]
pub enum Segment {
    U32,
}

impl Segment {
    /// The accepted schemas, each with the value that names it.
    pub open spec fn accepted() -> Seq<(Segment, SchemaView)> {
        seq![
            (Segment::U32, message(seq![column("a"@, Repetition::Required, PhysicalType::Int32, Some(LogicalType::Integer { bit_width: 32, is_signed: false })), column("b"@, Repetition::Required, PhysicalType::Int32, Some(LogicalType::Integer { bit_width: 32, is_signed: false }))])),
        ]
    }

    /// A matcher for the accepted schemas.
    pub fn matcher() -> (m: PqArrayMatcher<Segment>)
        ensures
            m@ == Self::accepted(),
    {
        let f0 = vec![column_of("a", Repetition::Required, PhysicalType::Int32, Some(LogicalType::Integer { bit_width: 32, is_signed: false })), column_of("b", Repetition::Required, PhysicalType::Int32, Some(LogicalType::Integer { bit_width: 32, is_signed: false }))];
        assert(deep_seq(f0@) =~~= seq![column("a"@, Repetition::Required, PhysicalType::Int32, Some(LogicalType::Integer { bit_width: 32, is_signed: false })), column("b"@, Repetition::Required, PhysicalType::Int32, Some(LogicalType::Integer { bit_width: 32, is_signed: false }))]);
        let s0 = message_of(f0);
        let items = vec![(Segment::U32, s0)];
        assert(items_view(items@) =~~= Self::accepted());
        PqArrayMatcher::new(items)
    }

    /// Checks the schema of a file, returning which accepted schema it has.
    pub fn check(schema: &SchemaType) -> (r: Result<Segment, Error>)
        ensures
            check_result(Self::accepted(), schema.deep(), r),
    {
        Self::matcher().check(schema)
    }
}

/// The accepted Parquet schemas of triangle arrays.
#[derive(Debug, Clone, Copy, PartialEq, Eq, Structural)]
pub enum Triangle {
    U32,
}

impl Triangle {
    /// The accepted schemas, each with the value that names it.
    pub open spec fn accepted() -> Seq<(Triangle, SchemaView)> {
        seq![
            (Triangle::U32, message(seq![column("a"@, Repetition::Required, PhysicalType::Int32, Some(LogicalType::Integer { bit_width: 32, is_signed: false })), column("b"@, Repetition::Required, PhysicalType::Int32, Some(LogicalType::Integer { bit_width: 32, is_signed: false })), column("c"@, Repetition::Required, PhysicalType::Int32, Some(LogicalType::Integer { bit_width: 32, is_signed: false }))])),
        ]
    }

    /// A matcher for the accepted schemas.
    pub fn matcher() -> (m: PqArrayMatcher<Triangle>)
        ensures
            m@ == Self::accepted(),
    {
        let f0 = vec![column_of("a", Repetition::Required, PhysicalType::Int32, Some(LogicalType::Integer { bit_width: 32, is_signed: false })), column_of("b", Repetition::Required, PhysicalType::Int32, Some(LogicalType::Integer { bit_width: 32, is_signed: false })), column_of("c", Repetition::Required, PhysicalType::Int32, Some(LogicalType::Integer { bit_width: 32, is_signed: false }))];
        assert(deep_seq(f0@) =~~= seq![column("a"@, Repetition::Required, PhysicalType::Int32, Some(LogicalType::Integer { bit_width: 32, is_signed: false })), column("b"@, Repetition::Required, PhysicalType::Int32, Some(LogicalType::Integer { bit_width: 32, is_signed: false })), column("c"@, Repetition::Required, PhysicalType::Int32, Some(LogicalType::Integer { bit_width: 32, is_signed: false }))]);
        let s0 = message_of(f0);
        let items = vec![(Triangle::U32, s0)];
        assert(items_view(items@) =~~= Self::accepted());
        PqArrayMatcher::new(items)
    }

    /// Checks the schema of a file, returning which accepted schema it has.
    pub fn check(schema: &SchemaType) -> (r: Result<Triangle, Error>)
        ensures
            check_result(Self::accepted(), schema.deep(), r),
    {
        Self::matcher().check(schema)
    }
}

/// The accepted Parquet schemas of category name arrays.
#[derive(Debug, Clone, Copy, PartialEq, Eq, Structural)]
pub enum Name {
    Utf8,
}

impl Name {
    /// The accepted schemas, each with the value that names it.
    pub open spec fn accepted() -> Seq<(Name, SchemaView)> {
        seq![
            (Name::Utf8, message(seq![column("name"@, Repetition::Required, PhysicalType::ByteArray, Some(LogicalType::Utf8))])),
        ]
    }

    /// A matcher for the accepted schemas.
    pub fn matcher() -> (m: PqArrayMatcher<Name>)
        ensures
            m@ == Self::accepted(),
    {
        let f0 = vec![column_of("name", Repetition::Required, PhysicalType::ByteArray, Some(LogicalType::Utf8))];
        assert(deep_seq(f0@) =~~= seq![column("name"@, Repetition::Required, PhysicalType::ByteArray, Some(LogicalType::Utf8))]);
        let s0 = message_of(f0);
        let items = vec![(Name::Utf8, s0)];
        assert(items_view(items@) =~~= Self::accepted());
        PqArrayMatcher::new(items)
    }

    /// Checks the schema of a file, returning which accepted schema it has.
    pub fn check(schema: &SchemaType) -> (r: Result<Name, Error>)
        ensures
            check_result(Self::accepted(), schema.deep(), r),
    {
        Self::matcher().check(schema)
    }
}

/// The accepted Parquet schemas of gradient arrays.
#[derive(Debug, Clone, Copy, PartialEq, Eq, Structural)]
pub enum Gradient {
    Rgba8,
}

impl Gradient {
    /// The accepted schemas, each with the value that names it.
    pub open spec fn accepted() -> Seq<(Gradient, SchemaView)> {
        seq![
            (Gradient::Rgba8, message(seq![column("r"@, Repetition::Required, PhysicalType::Int32, Some(LogicalType::Integer { bit_width: 8, is_signed: false })), column("g"@, Repetition::Required, PhysicalType::Int32, Some(LogicalType::Integer { bit_width: 8, is_signed: false })), column("b"@, Repetition::Required, PhysicalType::Int32, Some(LogicalType::Integer { bit_width: 8, is_signed: false })), column("a"@, Repetition::Required, PhysicalType::Int32, Some(LogicalType::Integer { bit_width: 8, is_signed: false }))])),
        ]
    }

    /// A matcher for the accepted schemas.
    pub fn matcher() -> (m: PqArrayMatcher<Gradient>)
        ensures
            m@ == Self::accepted(),
    {
        let f0 = vec![column_of("r", Repetition::Required, PhysicalType::Int32, Some(LogicalType::Integer { bit_width: 8, is_signed: false })), column_of("g", Repetition::Required, PhysicalType::Int32, Some(LogicalType::Integer { bit_width: 8, is_signed: false })), column_of("b", Repetition::Required, PhysicalType::Int32, Some(LogicalType::Integer { bit_width: 8, is_signed: false })), column_of("a", Repetition::Required, PhysicalType::Int32, Some(LogicalType::Integer { bit_width: 8, is_signed: false }))];
        assert(deep_seq(f0@) =~~= seq![column("r"@, Repetition::Required, PhysicalType::Int32, Some(LogicalType::Integer { bit_width: 8, is_signed: false })), column("g"@, Repetition::Required, PhysicalType::Int32, Some(LogicalType::Integer { bit_width: 8, is_signed: false })), column("b"@, Repetition::Required, PhysicalType::Int32, Some(LogicalType::Integer { bit_width: 8, is_signed: false })), column("a"@, Repetition::Required, PhysicalType::Int32, Some(LogicalType::Integer { bit_width: 8, is_signed: false }))]);
        let s0 = message_of(f0);
        let items = vec![(Gradient::Rgba8, s0)];
        assert(items_view(items@) =~~= Self::accepted());
        PqArrayMatcher::new(items)
    }

    /// Checks the schema of a file, returning which accepted schema it has.
    pub fn check(schema: &SchemaType) -> (r: Result<Gradient, Error>)
        ensures
            check_result(Self::accepted(), schema.deep(), r),
    {
        Self::matcher().check(schema)
    }
}

/// The accepted Parquet schemas of texture coordinate arrays.
#[derive(Debug, Clone, Copy, PartialEq, Eq, Structural)]
pub enum Texcoord {
    F32,
    F64,
}

impl Texcoord {
    /// The accepted schemas, each with the value that names it.
    pub open spec fn accepted() -> Seq<(Texcoord, SchemaView)> {
        seq![
            (Texcoord::F32, message(seq![column("u"@, Repetition::Required, PhysicalType::Float, None), column("v"@, Repetition::Required, PhysicalType::Float, None)])),
            (Texcoord::F64, message(seq![column("u"@, Repetition::Required, PhysicalType::Double, None), column("v"@, Repetition::Required, PhysicalType::Double, None)])),
        ]
    }

    /// A matcher for the accepted schemas.
    pub fn matcher() -> (m: PqArrayMatcher<Texcoord>)
        ensures
            m@ == Self::accepted(),
    {
        let f0 = vec![column_of("u", Repetition::Required, PhysicalType::Float, None), column_of("v", Repetition::Required, PhysicalType::Float, None)];
        assert(deep_seq(f0@) =~~= seq![column("u"@, Repetition::Required, PhysicalType::Float, None), column("v"@, Repetition::Required, PhysicalType::Float, None)]);
        let s0 = message_of(f0);
        let f1 = vec![column_of("u", Repetition::Required, PhysicalType::Double, None), column_of("v", Repetition::Required, PhysicalType::Double, None)];
        assert(deep_seq(f1@) =~~= seq![column("u"@, Repetition::Required, PhysicalType::Double, None), column("v"@, Repetition::Required, PhysicalType::Double, None)]);
        let s1 = message_of(f1);
        let items = vec![(Texcoord::F32, s0), (Texcoord::F64, s1)];
        assert(items_view(items@) =~~= Self::accepted());
        PqArrayMatcher::new(items)
    }

    /// Checks the schema of a file, returning which accepted schema it has.
    pub fn check(schema: &SchemaType) -> (r: Result<Texcoord, Error>)
        ensures
            check_result(Self::accepted(), schema.deep(), r),
    {
        Self::matcher().check(schema)
    }
}

/// The accepted Parquet schemas of boundary arrays.
#[derive(Debug, Clone, Copy, PartialEq, Eq, Structural)]
pub enum Boundary {
    F32,
    F64,
    I64,
    Date,
    DateTime,
}

impl Boundary {
    /// The accepted schemas, each with the value that names it.
    pub open spec fn accepted() -> Seq<(Boundary, SchemaView)> {
        seq![
            (Boundary::F32, message(seq![column("value"@, Repetition::Required, PhysicalType::Float, None), column("inclusive"@, Repetition::Required, PhysicalType::Boolean, None)])),
            (Boundary::F64, message(seq![column("value"@, Repetition::Required, PhysicalType::Double, None), column("inclusive"@, Repetition::Required, PhysicalType::Boolean, None)])),
            (Boundary::I64, message(seq![column("value"@, Repetition::Required, PhysicalType::Int64, None), column("inclusive"@, Repetition::Required, PhysicalType::Boolean, None)])),
            (Boundary::Date, message(seq![column("value"@, Repetition::Required, PhysicalType::Int32, Some(LogicalType::Date)), column("inclusive"@, Repetition::Required, PhysicalType::Boolean, None)])),
            (Boundary::DateTime, message(seq![column("value"@, Repetition::Required, PhysicalType::Int64, Some(LogicalType::Timestamp { adjusted_to_utc: true, unit: TimeUnit::Micros })), column("inclusive"@, Repetition::Required, PhysicalType::Boolean, None)])),
        ]
    }

    /// A matcher for the accepted schemas.
    pub fn matcher() -> (m: PqArrayMatcher<Boundary>)
        ensures
            m@ == Self::accepted(),
    {
        let f0 = vec![column_of("value", Repetition::Required, PhysicalType::Float, None), column_of("inclusive", Repetition::Required, PhysicalType::Boolean, None)];
        assert(deep_seq(f0@) =~~= seq![column("value"@, Repetition::Required, PhysicalType::Float, None), column("inclusive"@, Repetition::Required, PhysicalType::Boolean, None)]);
        let s0 = message_of(f0);
        let f1 = vec![column_of("value", Repetition::Required, PhysicalType::Double, None), column_of("inclusive", Repetition::Required, PhysicalType::Boolean, None)];
        assert(deep_seq(f1@) =~~= seq![column("value"@, Repetition::Required, PhysicalType::Double, None), column("inclusive"@, Repetition::Required, PhysicalType::Boolean, None)]);
        let s1 = message_of(f1);
        let f2 = vec![column_of("value", Repetition::Required, PhysicalType::Int64, None), column_of("inclusive", Repetition::Required, PhysicalType::Boolean, None)];
        assert(deep_seq(f2@) =~~= seq![column("value"@, Repetition::Required, PhysicalType::Int64, None), column("inclusive"@, Repetition::Required, PhysicalType::Boolean, None)]);
        let s2 = message_of(f2);
        let f3 = vec![column_of("value", Repetition::Required, PhysicalType::Int32, Some(LogicalType::Date)), column_of("inclusive", Repetition::Required, PhysicalType::Boolean, None)];
        assert(deep_seq(f3@) =~~= seq![column("value"@, Repetition::Required, PhysicalType::Int32, Some(LogicalType::Date)), column("inclusive"@, Repetition::Required, PhysicalType::Boolean, None)]);
        let s3 = message_of(f3);
        let f4 = vec![column_of("value", Repetition::Required, PhysicalType::Int64, Some(LogicalType::Timestamp { adjusted_to_utc: true, unit: TimeUnit::Micros })), column_of("inclusive", Repetition::Required, PhysicalType::Boolean, None)];
        assert(deep_seq(f4@) =~~= seq![column("value"@, Repetition::Required, PhysicalType::Int64, Some(LogicalType::Timestamp { adjusted_to_utc: true, unit: TimeUnit::Micros })), column("inclusive"@, Repetition::Required, PhysicalType::Boolean, None)]);
        let s4 = message_of(f4);
        let items = vec![(Boundary::F32, s0), (Boundary::F64, s1), (Boundary::I64, s2), (Boundary::Date, s3), (Boundary::DateTime, s4)];
        assert(items_view(items@) =~~= Self::accepted());
        PqArrayMatcher::new(items)
    }

    /// Checks the schema of a file, returning which accepted schema it has.
    pub fn check(schema: &SchemaType) -> (r: Result<Boundary, Error>)
        ensures
            check_result(Self::accepted(), schema.deep(), r),
    {
        Self::matcher().check(schema)
    }
}

/// The accepted Parquet schemas of regular sub-block arrays.
#[derive(Debug, Clone, Copy, PartialEq, Eq, Structural)]
pub enum RegularSubblock {
    U32U32,
}

impl RegularSubblock {
    /// The accepted schemas, each with the value that names it.
    pub open spec fn accepted() -> Seq<(RegularSubblock, SchemaView)> {
        seq![
            (RegularSubblock::U32U32, message(seq![column("parent_u"@, Repetition::Required, PhysicalType::Int32, Some(LogicalType::Integer { bit_width: 32, is_signed: false })), column("parent_v"@, Repetition::Required, PhysicalType::Int32, Some(LogicalType::Integer { bit_width: 32, is_signed: false })), column("parent_w"@, Repetition::Required, PhysicalType::Int32, Some(LogicalType::Integer { bit_width: 32, is_signed: false })), column("corner_min_u"@, Repetition::Required, PhysicalType::Int32, Some(LogicalType::Integer { bit_width: 32, is_signed: false })), column("corner_min_v"@, Repetition::Required, PhysicalType::Int32, Some(LogicalType::Integer { bit_width: 32, is_signed: false })), column("corner_min_w"@, Repetition::Required, PhysicalType::Int32, Some(LogicalType::Integer { bit_width: 32, is_signed: false })), column("corner_max_u"@, Repetition::Required, PhysicalType::Int32, Some(LogicalType::Integer { bit_width: 32, is_signed: false })), column("corner_max_v"@, Repetition::Required, PhysicalType::Int32, Some(LogicalType::Integer { bit_width: 32, is_signed: false })), column("corner_max_w"@, Repetition::Required, PhysicalType::Int32, Some(LogicalType::Integer { bit_width: 32, is_signed: false }))])),
        ]
    }

    /// A matcher for the accepted schemas.
    pub fn matcher() -> (m: PqArrayMatcher<RegularSubblock>)
        ensures
            m@ == Self::accepted(),
    {
        let f0 = vec![column_of("parent_u", Repetition::Required, PhysicalType::Int32, Some(LogicalType::Integer { bit_width: 32, is_signed: false })), column_of("parent_v", Repetition::Required, PhysicalType::Int32, Some(LogicalType::Integer { bit_width: 32, is_signed: false })), column_of("parent_w", Repetition::Required, PhysicalType::Int32, Some(LogicalType::Integer { bit_width: 32, is_signed: false })), column_of("corner_min_u", Repetition::Required, PhysicalType::Int32, Some(LogicalType::Integer { bit_width: 32, is_signed: false })), column_of("corner_min_v", Repetition::Required, PhysicalType::Int32, Some(LogicalType::Integer { bit_width: 32, is_signed: false })), column_of("corner_min_w", Repetition::Required, PhysicalType::Int32, Some(LogicalType::Integer { bit_width: 32, is_signed: false })), column_of("corner_max_u", Repetition::Required, PhysicalType::Int32, Some(LogicalType::Integer { bit_width: 32, is_signed: false })), column_of("corner_max_v", Repetition::Required, PhysicalType::Int32, Some(LogicalType::Integer { bit_width: 32, is_signed: false })), column_of("corner_max_w", Repetition::Required, PhysicalType::Int32, Some(LogicalType::Integer { bit_width: 32, is_signed: false }))];
        assert(deep_seq(f0@) =~~= seq![column("parent_u"@, Repetition::Required, PhysicalType::Int32, Some(LogicalType::Integer { bit_width: 32, is_signed: false })), column("parent_v"@, Repetition::Required, PhysicalType::Int32, Some(LogicalType::Integer { bit_width: 32, is_signed: false })), column("parent_w"@, Repetition::Required, PhysicalType::Int32, Some(LogicalType::Integer { bit_width: 32, is_signed: false })), column("corner_min_u"@, Repetition::Required, PhysicalType::Int32, Some(LogicalType::Integer { bit_width: 32, is_signed: false })), column("corner_min_v"@, Repetition::Required, PhysicalType::Int32, Some(LogicalType::Integer { bit_width: 32, is_signed: false })), column("corner_min_w"@, Repetition::Required, PhysicalType::Int32, Some(LogicalType::Integer { bit_width: 32, is_signed: false })), column("corner_max_u"@, Repetition::Required, PhysicalType::Int32, Some(LogicalType::Integer { bit_width: 32, is_signed: false })), column("corner_max_v"@, Repetition::Required, PhysicalType::Int32, Some(LogicalType::Integer { bit_width: 32, is_signed: false })), column("corner_max_w"@, Repetition::Required, PhysicalType::Int32, Some(LogicalType::Integer { bit_width: 32, is_signed: false }))]);
        let s0 = message_of(f0);
        let items = vec![(RegularSubblock::U32U32, s0)];
        assert(items_view(items@) =~~= Self::accepted());
        PqArrayMatcher::new(items)
    }

    /// Checks the schema of a file, returning which accepted schema it has.
    pub fn check(schema: &SchemaType) -> (r: Result<RegularSubblock, Error>)
        ensures
            check_result(Self::accepted(), schema.deep(), r),
    {
        Self::matcher().check(schema)
    }
}

/// The accepted Parquet schemas of free-form sub-block arrays.
#[derive(Debug, Clone, Copy, PartialEq, Eq, Structural)]
pub enum FreeformSubblock {
    U32F32,
    U32F64,
}

impl FreeformSubblock {
    /// The accepted schemas, each with the value that names it.
    pub open spec fn accepted() -> Seq<(FreeformSubblock, SchemaView)> {
        seq![
            (FreeformSubblock::U32F32, message(seq![column("parent_u"@, Repetition::Required, PhysicalType::Int32, Some(LogicalType::Integer { bit_width: 32, is_signed: false })), column("parent_v"@, Repetition::Required, PhysicalType::Int32, Some(LogicalType::Integer { bit_width: 32, is_signed: false })), column("parent_w"@, Repetition::Required, PhysicalType::Int32, Some(LogicalType::Integer { bit_width: 32, is_signed: false })), column("corner_min_u"@, Repetition::Required, PhysicalType::Float, None), column("corner_min_v"@, Repetition::Required, PhysicalType::Float, None), column("corner_min_w"@, Repetition::Required, PhysicalType::Float, None), column("corner_max_u"@, Repetition::Required, PhysicalType::Float, None), column("corner_max_v"@, Repetition::Required, PhysicalType::Float, None), column("corner_max_w"@, Repetition::Required, PhysicalType::Float, None)])),
            (FreeformSubblock::U32F64, message(seq![column("parent_u"@, Repetition::Required, PhysicalType::Int32, Some(LogicalType::Integer { bit_width: 32, is_signed: false })), column("parent_v"@, Repetition::Required, PhysicalType::Int32, Some(LogicalType::Integer { bit_width: 32, is_signed: false })), column("parent_w"@, Repetition::Required, PhysicalType::Int32, Some(LogicalType::Integer { bit_width: 32, is_signed: false })), column("corner_min_u"@, Repetition::Required, PhysicalType::Double, None), column("corner_min_v"@, Repetition::Required, PhysicalType::Double, None), column("corner_min_w"@, Repetition::Required, PhysicalType::Double, None), column("corner_max_u"@, Repetition::Required, PhysicalType::Double, None), column("corner_max_v"@, Repetition::Required, PhysicalType::Double, None), column("corner_max_w"@, Repetition::Required, PhysicalType::Double, None)])),
        ]
    }

    /// A matcher for the accepted schemas.
    pub fn matcher() -> (m: PqArrayMatcher<FreeformSubblock>)
        ensures
            m@ == Self::accepted(),
    {
        let f0 = vec![column_of("parent_u", Repetition::Required, PhysicalType::Int32, Some(LogicalType::Integer { bit_width: 32, is_signed: false })), column_of("parent_v", Repetition::Required, PhysicalType::Int32, Some(LogicalType::Integer { bit_width: 32, is_signed: false })), column_of("parent_w", Repetition::Required, PhysicalType::Int32, Some(LogicalType::Integer { bit_width: 32, is_signed: false })), column_of("corner_min_u", Repetition::Required, PhysicalType::Float, None), column_of("corner_min_v", Repetition::Required, PhysicalType::Float, None), column_of("corner_min_w", Repetition::Required, PhysicalType::Float, None), column_of("corner_max_u", Repetition::Required, PhysicalType::Float, None), column_of("corner_max_v", Repetition::Required, PhysicalType::Float, None), column_of("corner_max_w", Repetition::Required, PhysicalType::Float, None)];
        assert(deep_seq(f0@) =~~= seq![column("parent_u"@, Repetition::Required, PhysicalType::Int32, Some(LogicalType::Integer { bit_width: 32, is_signed: false })), column("parent_v"@, Repetition::Required, PhysicalType::Int32, Some(LogicalType::Integer { bit_width: 32, is_signed: false })), column("parent_w"@, Repetition::Required, PhysicalType::Int32, Some(LogicalType::Integer { bit_width: 32, is_signed: false })), column("corner_min_u"@, Repetition::Required, PhysicalType::Float, None), column("corner_min_v"@, Repetition::Required, PhysicalType::Float, None), column("corner_min_w"@, Repetition::Required, PhysicalType::Float, None), column("corner_max_u"@, Repetition::Required, PhysicalType::Float, None), column("corner_max_v"@, Repetition::Required, PhysicalType::Float, None), column("corner_max_w"@, Repetition::Required, PhysicalType::Float, None)]);
        let s0 = message_of(f0);
        let f1 = vec![column_of("parent_u", Repetition::Required, PhysicalType::Int32, Some(LogicalType::Integer { bit_width: 32, is_signed: false })), column_of("parent_v", Repetition::Required, PhysicalType::Int32, Some(LogicalType::Integer { bit_width: 32, is_signed: false })), column_of("parent_w", Repetition::Required, PhysicalType::Int32, Some(LogicalType::Integer { bit_width: 32, is_signed: false })), column_of("corner_min_u", Repetition::Required, PhysicalType::Double, None), column_of("corner_min_v", Repetition::Required, PhysicalType::Double, None), column_of("corner_min_w", Repetition::Required, PhysicalType::Double, None), column_of("corner_max_u", Repetition::Required, PhysicalType::Double, None), column_of("corner_max_v", Repetition::Required, PhysicalType::Double, None), column_of("corner_max_w", Repetition::Required, PhysicalType::Double, None)];
        assert(deep_seq(f1@) =~~= seq![column("parent_u"@, Repetition::Required, PhysicalType::Int32, Some(LogicalType::Integer { bit_width: 32, is_signed: false })), column("parent_v"@, Repetition::Required, PhysicalType::Int32, Some(LogicalType::Integer { bit_width: 32, is_signed: false })), column("parent_w"@, Repetition::Required, PhysicalType::Int32, Some(LogicalType::Integer { bit_width: 32, is_signed: false })), column("corner_min_u"@, Repetition::Required, PhysicalType::Double, None), column("corner_min_v"@, Repetition::Required, PhysicalType::Double, None), column("corner_min_w"@, Repetition::Required, PhysicalType::Double, None), column("corner_max_u"@, Repetition::Required, PhysicalType::Double, None), column("corner_max_v"@, Repetition::Required, PhysicalType::Double, None), column("corner_max_w"@, Repetition::Required, PhysicalType::Double, None)]);
        let s1 = message_of(f1);
        let items = vec![(FreeformSubblock::U32F32, s0), (FreeformSubblock::U32F64, s1)];
        assert(items_view(items@) =~~= Self::accepted());
        PqArrayMatcher::new(items)
    }

    /// Checks the schema of a file, returning which accepted schema it has.
    pub fn check(schema: &SchemaType) -> (r: Result<FreeformSubblock, Error>)
        ensures
            check_result(Self::accepted(), schema.deep(), r),
    {
        Self::matcher().check(schema)
    }
}

/// The accepted Parquet schemas of number arrays.
#[derive(Debug, Clone, Copy, PartialEq, Eq, Structural)]
pub enum Number {
    F32,
    F64,
    I64,
    Date,
    DateTime,
}

impl Number {
    /// The accepted schemas, each with the value that names it.
    pub open spec fn accepted() -> Seq<(Number, SchemaView)> {
        seq![
            (Number::F32, message(seq![column("number"@, Repetition::Optional, PhysicalType::Float, None)])),
            (Number::F64, message(seq![column("number"@, Repetition::Optional, PhysicalType::Double, None)])),
            (Number::I64, message(seq![column("number"@, Repetition::Optional, PhysicalType::Int64, None)])),
            (Number::Date, message(seq![column("number"@, Repetition::Optional, PhysicalType::Int32, Some(LogicalType::Date))])),
            (Number::DateTime, message(seq![column("number"@, Repetition::Optional, PhysicalType::Int64, Some(LogicalType::Timestamp { adjusted_to_utc: true, unit: TimeUnit::Micros }))])),
        ]
    }

    /// A matcher for the accepted schemas.
    pub fn matcher() -> (m: PqArrayMatcher<Number>)
        ensures
            m@ == Self::accepted(),
    {
        let f0 = vec![column_of("number", Repetition::Optional, PhysicalType::Float, None)];
        assert(deep_seq(f0@) =~~= seq![column("number"@, Repetition::Optional, PhysicalType::Float, None)]);
        let s0 = message_of(f0);
        let f1 = vec![column_of("number", Repetition::Optional, PhysicalType::Double, None)];
        assert(deep_seq(f1@) =~~= seq![column("number"@, Repetition::Optional, PhysicalType::Double, None)]);
        let s1 = message_of(f1);
        let f2 = vec![column_of("number", Repetition::Optional, PhysicalType::Int64, None)];
        assert(deep_seq(f2@) =~~= seq![column("number"@, Repetition::Optional, PhysicalType::Int64, None)]);
        let s2 = message_of(f2);
        let f3 = vec![column_of("number", Repetition::Optional, PhysicalType::Int32, Some(LogicalType::Date))];
        assert(deep_seq(f3@) =~~= seq![column("number"@, Repetition::Optional, PhysicalType::Int32, Some(LogicalType::Date))]);
        let s3 = message_of(f3);
        let f4 = vec![column_of("number", Repetition::Optional, PhysicalType::Int64, Some(LogicalType::Timestamp { adjusted_to_utc: true, unit: TimeUnit::Micros }))];
        assert(deep_seq(f4@) =~~= seq![column("number"@, Repetition::Optional, PhysicalType::Int64, Some(LogicalType::Timestamp { adjusted_to_utc: true, unit: TimeUnit::Micros }))]);
        let s4 = message_of(f4);
        let items = vec![(Number::F32, s0), (Number::F64, s1), (Number::I64, s2), (Number::Date, s3), (Number::DateTime, s4)];
        assert(items_view(items@) =~~= Self::accepted());
        PqArrayMatcher::new(items)
    }

    /// Checks the schema of a file, returning which accepted schema it has.
    pub fn check(schema: &SchemaType) -> (r: Result<Number, Error>)
        ensures
            check_result(Self::accepted(), schema.deep(), r),
    {
        Self::matcher().check(schema)
    }
}

/// The accepted Parquet schemas of index arrays.
#[derive(Debug, Clone, Copy, PartialEq, Eq, Structural)]
pub enum Index {
    U32,
}

impl Index {
    /// The accepted schemas, each with the value that names it.
    pub open spec fn accepted() -> Seq<(Index, SchemaView)> {
        seq![
            (Index::U32, message(seq![column("index"@, Repetition::Optional, PhysicalType::Int32, Some(LogicalType::Integer { bit_width: 32, is_signed: false }))])),
        ]
    }

    /// A matcher for the accepted schemas.
    pub fn matcher() -> (m: PqArrayMatcher<Index>)
        ensures
            m@ == Self::accepted(),
    {
        let f0 = vec![column_of("index", Repetition::Optional, PhysicalType::Int32, Some(LogicalType::Integer { bit_width: 32, is_signed: false }))];
        assert(deep_seq(f0@) =~~= seq![column("index"@, Repetition::Optional, PhysicalType::Int32, Some(LogicalType::Integer { bit_width: 32, is_signed: false }))]);
        let s0 = message_of(f0);
        let items = vec![(Index::U32, s0)];
        assert(items_view(items@) =~~= Self::accepted());
        PqArrayMatcher::new(items)
    }

    /// Checks the schema of a file, returning which accepted schema it has.
    pub fn check(schema: &SchemaType) -> (r: Result<Index, Error>)
        ensures
            check_result(Self::accepted(), schema.deep(), r),
    {
        Self::matcher().check(schema)
    }
}

/// The accepted Parquet schemas of vector arrays.
#[derive(Debug, Clone, Copy, PartialEq, Eq, Structural)]
pub enum Vector {
    F32x2,
    F64x2,
    F32x3,
    F64x3,
}

impl Vector {
    /// The accepted schemas, each with the value that names it.
    pub open spec fn accepted() -> Seq<(Vector, SchemaView)> {
        seq![
            (Vector::F32x2, message(seq![group("vector"@, Repetition::Optional, seq![column("x"@, Repetition::Required, PhysicalType::Float, None), column("y"@, Repetition::Required, PhysicalType::Float, None)])])),
            (Vector::F64x2, message(seq![group("vector"@, Repetition::Optional, seq![column("x"@, Repetition::Required, PhysicalType::Double, None), column("y"@, Repetition::Required, PhysicalType::Double, None)])])),
            (Vector::F32x3, message(seq![group("vector"@, Repetition::Optional, seq![column("x"@, Repetition::Required, PhysicalType::Float, None), column("y"@, Repetition::Required, PhysicalType::Float, None), column("z"@, Repetition::Required, PhysicalType::Float, None)])])),
            (Vector::F64x3, message(seq![group("vector"@, Repetition::Optional, seq![column("x"@, Repetition::Required, PhysicalType::Double, None), column("y"@, Repetition::Required, PhysicalType::Double, None), column("z"@, Repetition::Required, PhysicalType::Double, None)])])),
        ]
    }

    /// A matcher for the accepted schemas.
    pub fn matcher() -> (m: PqArrayMatcher<Vector>)
        ensures
            m@ == Self::accepted(),
    {
        let g0_0 = vec![column_of("x", Repetition::Required, PhysicalType::Float, None), column_of("y", Repetition::Required, PhysicalType::Float, None)];
        assert(deep_seq(g0_0@) =~~= seq![column("x"@, Repetition::Required, PhysicalType::Float, None), column("y"@, Repetition::Required, PhysicalType::Float, None)]);
        let f0 = vec![group_of("vector", Repetition::Optional, g0_0)];
        assert(deep_seq(f0@) =~~= seq![group("vector"@, Repetition::Optional, seq![column("x"@, Repetition::Required, PhysicalType::Float, None), column("y"@, Repetition::Required, PhysicalType::Float, None)])]);
        let s0 = message_of(f0);
        let g1_0 = vec![column_of("x", Repetition::Required, PhysicalType::Double, None), column_of("y", Repetition::Required, PhysicalType::Double, None)];
        assert(deep_seq(g1_0@) =~~= seq![column("x"@, Repetition::Required, PhysicalType::Double, None), column("y"@, Repetition::Required, PhysicalType::Double, None)]);
        let f1 = vec![group_of("vector", Repetition::Optional, g1_0)];
        assert(deep_seq(f1@) =~~= seq![group("vector"@, Repetition::Optional, seq![column("x"@, Repetition::Required, PhysicalType::Double, None), column("y"@, Repetition::Required, PhysicalType::Double, None)])]);
        let s1 = message_of(f1);
        let g2_0 = vec![column_of("x", Repetition::Required, PhysicalType::Float, None), column_of("y", Repetition::Required, PhysicalType::Float, None), column_of("z", Repetition::Required, PhysicalType::Float, None)];
        assert(deep_seq(g2_0@) =~~= seq![column("x"@, Repetition::Required, PhysicalType::Float, None), column("y"@, Repetition::Required, PhysicalType::Float, None), column("z"@, Repetition::Required, PhysicalType::Float, None)]);
        let f2 = vec![group_of("vector", Repetition::Optional, g2_0)];
        assert(deep_seq(f2@) =~~= seq![group("vector"@, Repetition::Optional, seq![column("x"@, Repetition::Required, PhysicalType::Float, None), column("y"@, Repetition::Required, PhysicalType::Float, None), column("z"@, Repetition::Required, PhysicalType::Float, None)])]);
        let s2 = message_of(f2);
        let g3_0 = vec![column_of("x", Repetition::Required, PhysicalType::Double, None), column_of("y", Repetition::Required, PhysicalType::Double, None), column_of("z", Repetition::Required, PhysicalType::Double, None)];
        assert(deep_seq(g3_0@) =~~= seq![column("x"@, Repetition::Required, PhysicalType::Double, None), column("y"@, Repetition::Required, PhysicalType::Double, None), column("z"@, Repetition::Required, PhysicalType::Double, None)]);
        let f3 = vec![group_of("vector", Repetition::Optional, g3_0)];
        assert(deep_seq(f3@) =~~= seq![group("vector"@, Repetition::Optional, seq![column("x"@, Repetition::Required, PhysicalType::Double, None), column("y"@, Repetition::Required, PhysicalType::Double, None), column("z"@, Repetition::Required, PhysicalType::Double, None)])]);
        let s3 = message_of(f3);
        let items = vec![(Vector::F32x2, s0), (Vector::F64x2, s1), (Vector::F32x3, s2), (Vector::F64x3, s3)];
        assert(items_view(items@) =~~= Self::accepted());
        PqArrayMatcher::new(items)
    }

    /// Checks the schema of a file, returning which accepted schema it has.
    pub fn check(schema: &SchemaType) -> (r: Result<Vector, Error>)
        ensures
            check_result(Self::accepted(), schema.deep(), r),
    {
        Self::matcher().check(schema)
    }
}

/// The accepted Parquet schemas of text arrays.
#[derive(Debug, Clone, Copy, PartialEq, Eq, Structural)]
pub enum Text {
    Text,
}

impl Text {
    /// The accepted schemas, each with the value that names it.
    pub open spec fn accepted() -> Seq<(Text, SchemaView)> {
        seq![
            (Text::Text, message(seq![column("text"@, Repetition::Optional, PhysicalType::ByteArray, Some(LogicalType::Utf8))])),
        ]
    }

    /// A matcher for the accepted schemas.
    pub fn matcher() -> (m: PqArrayMatcher<Text>)
        ensures
            m@ == Self::accepted(),
    {
        let f0 = vec![column_of("text", Repetition::Optional, PhysicalType::ByteArray, Some(LogicalType::Utf8))];
        assert(deep_seq(f0@) =~~= seq![column("text"@, Repetition::Optional, PhysicalType::ByteArray, Some(LogicalType::Utf8))]);
        let s0 = message_of(f0);
        let items = vec![(Text::Text, s0)];
        assert(items_view(items@) =~~= Self::accepted());
        PqArrayMatcher::new(items)
    }

    /// Checks the schema of a file, returning which accepted schema it has.
    pub fn check(schema: &SchemaType) -> (r: Result<Text, Error>)
        ensures
            check_result(Self::accepted(), schema.deep(), r),
    {
        Self::matcher().check(schema)
    }
}

/// The accepted Parquet schemas of boolean arrays.
#[derive(Debug, Clone, Copy, PartialEq, Eq, Structural)]
pub enum Boolean {
    Boolean,
}

impl Boolean {
    /// The accepted schemas, each with the value that names it.
    pub open spec fn accepted() -> Seq<(Boolean, SchemaView)> {
        seq![
            (Boolean::Boolean, message(seq![column("bool"@, Repetition::Optional, PhysicalType::Boolean, None)])),
        ]
    }

    /// A matcher for the accepted schemas.
    pub fn matcher() -> (m: PqArrayMatcher<Boolean>)
        ensures
            m@ == Self::accepted(),
    {
        let f0 = vec![column_of("bool", Repetition::Optional, PhysicalType::Boolean, None)];
        assert(deep_seq(f0@) =~~= seq![column("bool"@, Repetition::Optional, PhysicalType::Boolean, None)]);
        let s0 = message_of(f0);
        let items = vec![(Boolean::Boolean, s0)];
        assert(items_view(items@) =~~= Self::accepted());
        PqArrayMatcher::new(items)
    }

    /// Checks the schema of a file, returning which accepted schema it has.
    pub fn check(schema: &SchemaType) -> (r: Result<Boolean, Error>)
        ensures
            check_result(Self::accepted(), schema.deep(), r),
    {
        Self::matcher().check(schema)
    }
}

/// The accepted Parquet schemas of color arrays.
#[derive(Debug, Clone, Copy, PartialEq, Eq, Structural)]
pub enum Color {
    Rgba8,
}

impl Color {
    /// The accepted schemas, each with the value that names it.
    pub open spec fn accepted() -> Seq<(Color, SchemaView)> {
        seq![
            (Color::Rgba8, message(seq![group("color"@, Repetition::Optional, seq![column("r"@, Repetition::Required, PhysicalType::Int32, Some(LogicalType::Integer { bit_width: 8, is_signed: false })), column("g"@, Repetition::Required, PhysicalType::Int32, Some(LogicalType::Integer { bit_width: 8, is_signed: false })), column("b"@, Repetition::Required, PhysicalType::Int32, Some(LogicalType::Integer { bit_width: 8, is_signed: false })), column("a"@, Repetition::Required, PhysicalType::Int32, Some(LogicalType::Integer { bit_width: 8, is_signed: false }))])])),
        ]
    }

    /// A matcher for the accepted schemas.
    pub fn matcher() -> (m: PqArrayMatcher<Color>)
        ensures
            m@ == Self::accepted(),
    {
        let g0_0 = vec![column_of("r", Repetition::Required, PhysicalType::Int32, Some(LogicalType::Integer { bit_width: 8, is_signed: false })), column_of("g", Repetition::Required, PhysicalType::Int32, Some(LogicalType::Integer { bit_width: 8, is_signed: false })), column_of("b", Repetition::Required, PhysicalType::Int32, Some(LogicalType::Integer { bit_width: 8, is_signed: false })), column_of("a", Repetition::Required, PhysicalType::Int32, Some(LogicalType::Integer { bit_width: 8, is_signed: false }))];
        assert(deep_seq(g0_0@) =~~= seq![column("r"@, Repetition::Required, PhysicalType::Int32, Some(LogicalType::Integer { bit_width: 8, is_signed: false })), column("g"@, Repetition::Required, PhysicalType::Int32, Some(LogicalType::Integer { bit_width: 8, is_signed: false })), column("b"@, Repetition::Required, PhysicalType::Int32, Some(LogicalType::Integer { bit_width: 8, is_signed: false })), column("a"@, Repetition::Required, PhysicalType::Int32, Some(LogicalType::Integer { bit_width: 8, is_signed: false }))]);
        let f0 = vec![group_of("color", Repetition::Optional, g0_0)];
        assert(deep_seq(f0@) =~~= seq![group("color"@, Repetition::Optional, seq![column("r"@, Repetition::Required, PhysicalType::Int32, Some(LogicalType::Integer { bit_width: 8, is_signed: false })), column("g"@, Repetition::Required, PhysicalType::Int32, Some(LogicalType::Integer { bit_width: 8, is_signed: false })), column("b"@, Repetition::Required, PhysicalType::Int32, Some(LogicalType::Integer { bit_width: 8, is_signed: false })), column("a"@, Repetition::Required, PhysicalType::Int32, Some(LogicalType::Integer { bit_width: 8, is_signed: false }))])]);
        let s0 = message_of(f0);
        let items = vec![(Color::Rgba8, s0)];
        assert(items_view(items@) =~~= Self::accepted());
        PqArrayMatcher::new(items)
    }

    /// Checks the schema of a file, returning which accepted schema it has.
    pub fn check(schema: &SchemaType) -> (r: Result<Color, Error>)
        ensures
            check_result(Self::accepted(), schema.deep(), r),
    {
        Self::matcher().check(schema)
    }
}

} // verus!

verus! {

impl Number {
    /// Checks that numbers stored this way can be read as 64-bit floats: all can but 64-bit
    /// integers, which would lose precision.
    pub fn check_cast_f64(self) -> (r: Result<(), Error>)
        ensures
            r is Err <==> self == Number::I64,
            r matches Err(e) ==> (e matches Error::UnsafeCast(from, to) && from@
                == "64-bit integer"@ && to@ == "64-bit float"@),
    {
        match self {
            Number::I64 => Err(Error::UnsafeCast("64-bit integer", "64-bit float")),
            _ => Ok(()),
        }
    }

    /// Checks that numbers stored this way can be read as 64-bit integers: floating-point
    /// numbers can't; integers, dates (as days), and date-times (as microseconds) can.
    pub fn check_cast_i64(self) -> (r: Result<(), Error>)
        ensures
            r is Ok <==> (self == Number::I64 || self == Number::Date || self == Number::DateTime),
            self == Number::F32 ==> (r matches Err(Error::UnsafeCast(from, to)) && from@
                == "32-bit float"@ && to@ == "64-bit integer"@),
            self == Number::F64 ==> (r matches Err(Error::UnsafeCast(from, to)) && from@
                == "64-bit float"@ && to@ == "64-bit integer"@),
    {
        match self {
            Number::F32 => Err(Error::UnsafeCast("32-bit float", "64-bit integer")),
            Number::F64 => Err(Error::UnsafeCast("64-bit float", "64-bit integer")),
            _ => Ok(()),
        }
    }
}


// ---------------------------------------------------------------------------------------
// Each accepted schema holds the columns its value names

impl Scalar {
    /// The types of the columns that a schema named by this value holds: a scalar of the value's precision.
    pub open spec fn column_types(self) -> Seq<(PhysicalType, Option<LogicalType>)> {
        match self {
            Scalar::F32 => seq![(PhysicalType::Float, None::<LogicalType>)],
            Scalar::F64 => seq![(PhysicalType::Double, None::<LogicalType>)],
        }
    }

    /// Each accepted schema holds the columns that its value names, and no two accepted
    /// schemas are named by the same value, so the value tells the reader how to decode
    /// the columns of a schema that matched.
    pub proof fn lemma_values_name_columns()
        ensures
            forall|i: int|
                0 <= i < Self::accepted().len() ==> #[trigger] columns_typed(
                    Self::accepted()[i].1,
                    Self::accepted()[i].0.column_types(),
                ),
            forall|i: int, j: int|
                0 <= i < j < Self::accepted().len() ==> Self::accepted()[i].0 != Self::accepted()[j].0,
    {
        assert(columns_typed(Self::accepted()[0].1, Self::accepted()[0].0.column_types()));
        assert(columns_typed(Self::accepted()[1].1, Self::accepted()[1].0.column_types()));
    }
}

impl Vertex {
    /// The types of the columns that a schema named by this value holds: three coordinates of the value's precision.
    pub open spec fn column_types(self) -> Seq<(PhysicalType, Option<LogicalType>)> {
        match self {
            Vertex::F32 => seq![(PhysicalType::Float, None::<LogicalType>), (PhysicalType::Float, None::<LogicalType>), (PhysicalType::Float, None::<LogicalType>)],
            Vertex::F64 => seq![(PhysicalType::Double, None::<LogicalType>), (PhysicalType::Double, None::<LogicalType>), (PhysicalType::Double, None::<LogicalType>)],
        }
    }

    /// Each accepted schema holds the columns that its value names, and no two accepted
    /// schemas are named by the same value, so the value tells the reader how to decode
    /// the columns of a schema that matched.
    pub proof fn lemma_values_name_columns()
        ensures
            forall|i: int|
                0 <= i < Self::accepted().len() ==> #[trigger] columns_typed(
                    Self::accepted()[i].1,
                    Self::accepted()[i].0.column_types(),
                ),
            forall|i: int, j: int|
                0 <= i < j < Self::accepted().len() ==> Self::accepted()[i].0 != Self::accepted()[j].0,
    {
        assert(columns_typed(Self::accepted()[0].1, Self::accepted()[0].0.column_types()));
        assert(columns_typed(Self::accepted()[1].1, Self::accepted()[1].0.column_types()));
    }
}

impl Segment {
    /// The types of the columns that a schema named by this value holds: two unsigned 32-bit vertex indices.
    pub open spec fn column_types(self) -> Seq<(PhysicalType, Option<LogicalType>)> {
        match self {
            Segment::U32 => seq![(PhysicalType::Int32, Some(LogicalType::Integer { bit_width: 32, is_signed: false })), (PhysicalType::Int32, Some(LogicalType::Integer { bit_width: 32, is_signed: false }))],
        }
    }

    /// Each accepted schema holds the columns that its value names, and no two accepted
    /// schemas are named by the same value, so the value tells the reader how to decode
    /// the columns of a schema that matched.
    pub proof fn lemma_values_name_columns()
        ensures
            forall|i: int|
                0 <= i < Self::accepted().len() ==> #[trigger] columns_typed(
                    Self::accepted()[i].1,
                    Self::accepted()[i].0.column_types(),
                ),
            forall|i: int, j: int|
                0 <= i < j < Self::accepted().len() ==> Self::accepted()[i].0 != Self::accepted()[j].0,
    {
        assert(columns_typed(Self::accepted()[0].1, Self::accepted()[0].0.column_types()));
    }
}

impl Triangle {
    /// The types of the columns that a schema named by this value holds: three unsigned 32-bit vertex indices.
    pub open spec fn column_types(self) -> Seq<(PhysicalType, Option<LogicalType>)> {
        match self {
            Triangle::U32 => seq![(PhysicalType::Int32, Some(LogicalType::Integer { bit_width: 32, is_signed: false })), (PhysicalType::Int32, Some(LogicalType::Integer { bit_width: 32, is_signed: false })), (PhysicalType::Int32, Some(LogicalType::Integer { bit_width: 32, is_signed: false }))],
        }
    }

    /// Each accepted schema holds the columns that its value names, and no two accepted
    /// schemas are named by the same value, so the value tells the reader how to decode
    /// the columns of a schema that matched.
    pub proof fn lemma_values_name_columns()
        ensures
            forall|i: int|
                0 <= i < Self::accepted().len() ==> #[trigger] columns_typed(
                    Self::accepted()[i].1,
                    Self::accepted()[i].0.column_types(),
                ),
            forall|i: int, j: int|
                0 <= i < j < Self::accepted().len() ==> Self::accepted()[i].0 != Self::accepted()[j].0,
    {
        assert(columns_typed(Self::accepted()[0].1, Self::accepted()[0].0.column_types()));
    }
}

impl Name {
    /// The types of the columns that a schema named by this value holds: one UTF-8 string.
    pub open spec fn column_types(self) -> Seq<(PhysicalType, Option<LogicalType>)> {
        match self {
            Name::Utf8 => seq![(PhysicalType::ByteArray, Some(LogicalType::Utf8))],
        }
    }

    /// Each accepted schema holds the columns that its value names, and no two accepted
    /// schemas are named by the same value, so the value tells the reader how to decode
    /// the columns of a schema that matched.
    pub proof fn lemma_values_name_columns()
        ensures
            forall|i: int|
                0 <= i < Self::accepted().len() ==> #[trigger] columns_typed(
                    Self::accepted()[i].1,
                    Self::accepted()[i].0.column_types(),
                ),
            forall|i: int, j: int|
                0 <= i < j < Self::accepted().len() ==> Self::accepted()[i].0 != Self::accepted()[j].0,
    {
        assert(columns_typed(Self::accepted()[0].1, Self::accepted()[0].0.column_types()));
    }
}

impl Gradient {
    /// The types of the columns that a schema named by this value holds: four unsigned 8-bit channels.
    pub open spec fn column_types(self) -> Seq<(PhysicalType, Option<LogicalType>)> {
        match self {
            Gradient::Rgba8 => seq![(PhysicalType::Int32, Some(LogicalType::Integer { bit_width: 8, is_signed: false })), (PhysicalType::Int32, Some(LogicalType::Integer { bit_width: 8, is_signed: false })), (PhysicalType::Int32, Some(LogicalType::Integer { bit_width: 8, is_signed: false })), (PhysicalType::Int32, Some(LogicalType::Integer { bit_width: 8, is_signed: false }))],
        }
    }

    /// Each accepted schema holds the columns that its value names, and no two accepted
    /// schemas are named by the same value, so the value tells the reader how to decode
    /// the columns of a schema that matched.
    pub proof fn lemma_values_name_columns()
        ensures
            forall|i: int|
                0 <= i < Self::accepted().len() ==> #[trigger] columns_typed(
                    Self::accepted()[i].1,
                    Self::accepted()[i].0.column_types(),
                ),
            forall|i: int, j: int|
                0 <= i < j < Self::accepted().len() ==> Self::accepted()[i].0 != Self::accepted()[j].0,
    {
        assert(columns_typed(Self::accepted()[0].1, Self::accepted()[0].0.column_types()));
    }
}

impl Texcoord {
    /// The types of the columns that a schema named by this value holds: two coordinates of the value's precision.
    pub open spec fn column_types(self) -> Seq<(PhysicalType, Option<LogicalType>)> {
        match self {
            Texcoord::F32 => seq![(PhysicalType::Float, None::<LogicalType>), (PhysicalType::Float, None::<LogicalType>)],
            Texcoord::F64 => seq![(PhysicalType::Double, None::<LogicalType>), (PhysicalType::Double, None::<LogicalType>)],
        }
    }

    /// Each accepted schema holds the columns that its value names, and no two accepted
    /// schemas are named by the same value, so the value tells the reader how to decode
    /// the columns of a schema that matched.
    pub proof fn lemma_values_name_columns()
        ensures
            forall|i: int|
                0 <= i < Self::accepted().len() ==> #[trigger] columns_typed(
                    Self::accepted()[i].1,
                    Self::accepted()[i].0.column_types(),
                ),
            forall|i: int, j: int|
                0 <= i < j < Self::accepted().len() ==> Self::accepted()[i].0 != Self::accepted()[j].0,
    {
        assert(columns_typed(Self::accepted()[0].1, Self::accepted()[0].0.column_types()));
        assert(columns_typed(Self::accepted()[1].1, Self::accepted()[1].0.column_types()));
    }
}

impl Boundary {
    /// The types of the columns that a schema named by this value holds: the boundary value, of the value's type, then whether it is inclusive.
    pub open spec fn column_types(self) -> Seq<(PhysicalType, Option<LogicalType>)> {
        match self {
            Boundary::F32 => seq![(PhysicalType::Float, None::<LogicalType>), (PhysicalType::Boolean, None::<LogicalType>)],
            Boundary::F64 => seq![(PhysicalType::Double, None::<LogicalType>), (PhysicalType::Boolean, None::<LogicalType>)],
            Boundary::I64 => seq![(PhysicalType::Int64, None::<LogicalType>), (PhysicalType::Boolean, None::<LogicalType>)],
            Boundary::Date => seq![(PhysicalType::Int32, Some(LogicalType::Date)), (PhysicalType::Boolean, None::<LogicalType>)],
            Boundary::DateTime => seq![(PhysicalType::Int64, Some(LogicalType::Timestamp { adjusted_to_utc: true, unit: TimeUnit::Micros })), (PhysicalType::Boolean, None::<LogicalType>)],
        }
    }

    /// Each accepted schema holds the columns that its value names, and no two accepted
    /// schemas are named by the same value, so the value tells the reader how to decode
    /// the columns of a schema that matched.
    pub proof fn lemma_values_name_columns()
        ensures
            forall|i: int|
                0 <= i < Self::accepted().len() ==> #[trigger] columns_typed(
                    Self::accepted()[i].1,
                    Self::accepted()[i].0.column_types(),
                ),
            forall|i: int, j: int|
                0 <= i < j < Self::accepted().len() ==> Self::accepted()[i].0 != Self::accepted()[j].0,
    {
        assert(columns_typed(Self::accepted()[0].1, Self::accepted()[0].0.column_types()));
        assert(columns_typed(Self::accepted()[1].1, Self::accepted()[1].0.column_types()));
        assert(columns_typed(Self::accepted()[2].1, Self::accepted()[2].0.column_types()));
        assert(columns_typed(Self::accepted()[3].1, Self::accepted()[3].0.column_types()));
        assert(columns_typed(Self::accepted()[4].1, Self::accepted()[4].0.column_types()));
    }
}

impl RegularSubblock {
    /// The types of the columns that a schema named by this value holds: three unsigned 32-bit parent indices, then six unsigned 32-bit corners.
    pub open spec fn column_types(self) -> Seq<(PhysicalType, Option<LogicalType>)> {
        match self {
            RegularSubblock::U32U32 => seq![(PhysicalType::Int32, Some(LogicalType::Integer { bit_width: 32, is_signed: false })), (PhysicalType::Int32, Some(LogicalType::Integer { bit_width: 32, is_signed: false })), (PhysicalType::Int32, Some(LogicalType::Integer { bit_width: 32, is_signed: false })), (PhysicalType::Int32, Some(LogicalType::Integer { bit_width: 32, is_signed: false })), (PhysicalType::Int32, Some(LogicalType::Integer { bit_width: 32, is_signed: false })), (PhysicalType::Int32, Some(LogicalType::Integer { bit_width: 32, is_signed: false })), (PhysicalType::Int32, Some(LogicalType::Integer { bit_width: 32, is_signed: false })), (PhysicalType::Int32, Some(LogicalType::Integer { bit_width: 32, is_signed: false })), (PhysicalType::Int32, Some(LogicalType::Integer { bit_width: 32, is_signed: false }))],
        }
    }

    /// Each accepted schema holds the columns that its value names, and no two accepted
    /// schemas are named by the same value, so the value tells the reader how to decode
    /// the columns of a schema that matched.
    pub proof fn lemma_values_name_columns()
        ensures
            forall|i: int|
                0 <= i < Self::accepted().len() ==> #[trigger] columns_typed(
                    Self::accepted()[i].1,
                    Self::accepted()[i].0.column_types(),
                ),
            forall|i: int, j: int|
                0 <= i < j < Self::accepted().len() ==> Self::accepted()[i].0 != Self::accepted()[j].0,
    {
        assert(columns_typed(Self::accepted()[0].1, Self::accepted()[0].0.column_types()));
    }
}

impl FreeformSubblock {
    /// The types of the columns that a schema named by this value holds: three unsigned 32-bit parent indices, then six corners of the value's precision.
    pub open spec fn column_types(self) -> Seq<(PhysicalType, Option<LogicalType>)> {
        match self {
            FreeformSubblock::U32F32 => seq![(PhysicalType::Int32, Some(LogicalType::Integer { bit_width: 32, is_signed: false })), (PhysicalType::Int32, Some(LogicalType::Integer { bit_width: 32, is_signed: false })), (PhysicalType::Int32, Some(LogicalType::Integer { bit_width: 32, is_signed: false })), (PhysicalType::Float, None::<LogicalType>), (PhysicalType::Float, None::<LogicalType>), (PhysicalType::Float, None::<LogicalType>), (PhysicalType::Float, None::<LogicalType>), (PhysicalType::Float, None::<LogicalType>), (PhysicalType::Float, None::<LogicalType>)],
            FreeformSubblock::U32F64 => seq![(PhysicalType::Int32, Some(LogicalType::Integer { bit_width: 32, is_signed: false })), (PhysicalType::Int32, Some(LogicalType::Integer { bit_width: 32, is_signed: false })), (PhysicalType::Int32, Some(LogicalType::Integer { bit_width: 32, is_signed: false })), (PhysicalType::Double, None::<LogicalType>), (PhysicalType::Double, None::<LogicalType>), (PhysicalType::Double, None::<LogicalType>), (PhysicalType::Double, None::<LogicalType>), (PhysicalType::Double, None::<LogicalType>), (PhysicalType::Double, None::<LogicalType>)],
        }
    }

    /// Each accepted schema holds the columns that its value names, and no two accepted
    /// schemas are named by the same value, so the value tells the reader how to decode
    /// the columns of a schema that matched.
    pub proof fn lemma_values_name_columns()
        ensures
            forall|i: int|
                0 <= i < Self::accepted().len() ==> #[trigger] columns_typed(
                    Self::accepted()[i].1,
                    Self::accepted()[i].0.column_types(),
                ),
            forall|i: int, j: int|
                0 <= i < j < Self::accepted().len() ==> Self::accepted()[i].0 != Self::accepted()[j].0,
    {
        assert(columns_typed(Self::accepted()[0].1, Self::accepted()[0].0.column_types()));
        assert(columns_typed(Self::accepted()[1].1, Self::accepted()[1].0.column_types()));
    }
}

impl Number {
    /// The types of the columns that a schema named by this value holds: one number of the value's type.
    pub open spec fn column_types(self) -> Seq<(PhysicalType, Option<LogicalType>)> {
        match self {
            Number::F32 => seq![(PhysicalType::Float, None::<LogicalType>)],
            Number::F64 => seq![(PhysicalType::Double, None::<LogicalType>)],
            Number::I64 => seq![(PhysicalType::Int64, None::<LogicalType>)],
            Number::Date => seq![(PhysicalType::Int32, Some(LogicalType::Date))],
            Number::DateTime => seq![(PhysicalType::Int64, Some(LogicalType::Timestamp { adjusted_to_utc: true, unit: TimeUnit::Micros }))],
        }
    }

    /// Each accepted schema holds the columns that its value names, and no two accepted
    /// schemas are named by the same value, so the value tells the reader how to decode
    /// the columns of a schema that matched.
    pub proof fn lemma_values_name_columns()
        ensures
            forall|i: int|
                0 <= i < Self::accepted().len() ==> #[trigger] columns_typed(
                    Self::accepted()[i].1,
                    Self::accepted()[i].0.column_types(),
                ),
            forall|i: int, j: int|
                0 <= i < j < Self::accepted().len() ==> Self::accepted()[i].0 != Self::accepted()[j].0,
    {
        assert(columns_typed(Self::accepted()[0].1, Self::accepted()[0].0.column_types()));
        assert(columns_typed(Self::accepted()[1].1, Self::accepted()[1].0.column_types()));
        assert(columns_typed(Self::accepted()[2].1, Self::accepted()[2].0.column_types()));
        assert(columns_typed(Self::accepted()[3].1, Self::accepted()[3].0.column_types()));
        assert(columns_typed(Self::accepted()[4].1, Self::accepted()[4].0.column_types()));
    }
}

impl Index {
    /// The types of the columns that a schema named by this value holds: one unsigned 32-bit index.
    pub open spec fn column_types(self) -> Seq<(PhysicalType, Option<LogicalType>)> {
        match self {
            Index::U32 => seq![(PhysicalType::Int32, Some(LogicalType::Integer { bit_width: 32, is_signed: false }))],
        }
    }

    /// Each accepted schema holds the columns that its value names, and no two accepted
    /// schemas are named by the same value, so the value tells the reader how to decode
    /// the columns of a schema that matched.
    pub proof fn lemma_values_name_columns()
        ensures
            forall|i: int|
                0 <= i < Self::accepted().len() ==> #[trigger] columns_typed(
                    Self::accepted()[i].1,
                    Self::accepted()[i].0.column_types(),
                ),
            forall|i: int, j: int|
                0 <= i < j < Self::accepted().len() ==> Self::accepted()[i].0 != Self::accepted()[j].0,
    {
        assert(columns_typed(Self::accepted()[0].1, Self::accepted()[0].0.column_types()));
    }
}

impl Vector {
    /// The types of the columns that a schema named by this value holds: two or three components of the value's precision.
    pub open spec fn column_types(self) -> Seq<(PhysicalType, Option<LogicalType>)> {
        match self {
            Vector::F32x2 => seq![(PhysicalType::Float, None::<LogicalType>), (PhysicalType::Float, None::<LogicalType>)],
            Vector::F64x2 => seq![(PhysicalType::Double, None::<LogicalType>), (PhysicalType::Double, None::<LogicalType>)],
            Vector::F32x3 => seq![(PhysicalType::Float, None::<LogicalType>), (PhysicalType::Float, None::<LogicalType>), (PhysicalType::Float, None::<LogicalType>)],
            Vector::F64x3 => seq![(PhysicalType::Double, None::<LogicalType>), (PhysicalType::Double, None::<LogicalType>), (PhysicalType::Double, None::<LogicalType>)],
        }
    }

    /// Each accepted schema holds the columns that its value names, and no two accepted
    /// schemas are named by the same value, so the value tells the reader how to decode
    /// the columns of a schema that matched.
    pub proof fn lemma_values_name_columns()
        ensures
            forall|i: int|
                0 <= i < Self::accepted().len() ==> #[trigger] columns_typed(
                    Self::accepted()[i].1,
                    Self::accepted()[i].0.column_types(),
                ),
            forall|i: int, j: int|
                0 <= i < j < Self::accepted().len() ==> Self::accepted()[i].0 != Self::accepted()[j].0,
    {
        assert(columns_typed(Self::accepted()[0].1, Self::accepted()[0].0.column_types()));
        assert(columns_typed(Self::accepted()[1].1, Self::accepted()[1].0.column_types()));
        assert(columns_typed(Self::accepted()[2].1, Self::accepted()[2].0.column_types()));
        assert(columns_typed(Self::accepted()[3].1, Self::accepted()[3].0.column_types()));
    }
}

impl Text {
    /// The types of the columns that a schema named by this value holds: one UTF-8 string.
    pub open spec fn column_types(self) -> Seq<(PhysicalType, Option<LogicalType>)> {
        match self {
            Text::Text => seq![(PhysicalType::ByteArray, Some(LogicalType::Utf8))],
        }
    }

    /// Each accepted schema holds the columns that its value names, and no two accepted
    /// schemas are named by the same value, so the value tells the reader how to decode
    /// the columns of a schema that matched.
    pub proof fn lemma_values_name_columns()
        ensures
            forall|i: int|
                0 <= i < Self::accepted().len() ==> #[trigger] columns_typed(
                    Self::accepted()[i].1,
                    Self::accepted()[i].0.column_types(),
                ),
            forall|i: int, j: int|
                0 <= i < j < Self::accepted().len() ==> Self::accepted()[i].0 != Self::accepted()[j].0,
    {
        assert(columns_typed(Self::accepted()[0].1, Self::accepted()[0].0.column_types()));
    }
}

impl Boolean {
    /// The types of the columns that a schema named by this value holds: one boolean.
    pub open spec fn column_types(self) -> Seq<(PhysicalType, Option<LogicalType>)> {
        match self {
            Boolean::Boolean => seq![(PhysicalType::Boolean, None::<LogicalType>)],
        }
    }

    /// Each accepted schema holds the columns that its value names, and no two accepted
    /// schemas are named by the same value, so the value tells the reader how to decode
    /// the columns of a schema that matched.
    pub proof fn lemma_values_name_columns()
        ensures
            forall|i: int|
                0 <= i < Self::accepted().len() ==> #[trigger] columns_typed(
                    Self::accepted()[i].1,
                    Self::accepted()[i].0.column_types(),
                ),
            forall|i: int, j: int|
                0 <= i < j < Self::accepted().len() ==> Self::accepted()[i].0 != Self::accepted()[j].0,
    {
        assert(columns_typed(Self::accepted()[0].1, Self::accepted()[0].0.column_types()));
    }
}

impl Color {
    /// The types of the columns that a schema named by this value holds: four unsigned 8-bit channels.
    pub open spec fn column_types(self) -> Seq<(PhysicalType, Option<LogicalType>)> {
        match self {
            Color::Rgba8 => seq![(PhysicalType::Int32, Some(LogicalType::Integer { bit_width: 8, is_signed: false })), (PhysicalType::Int32, Some(LogicalType::Integer { bit_width: 8, is_signed: false })), (PhysicalType::Int32, Some(LogicalType::Integer { bit_width: 8, is_signed: false })), (PhysicalType::Int32, Some(LogicalType::Integer { bit_width: 8, is_signed: false }))],
        }
    }

    /// Each accepted schema holds the columns that its value names, and no two accepted
    /// schemas are named by the same value, so the value tells the reader how to decode
    /// the columns of a schema that matched.
    pub proof fn lemma_values_name_columns()
        ensures
            forall|i: int|
                0 <= i < Self::accepted().len() ==> #[trigger] columns_typed(
                    Self::accepted()[i].1,
                    Self::accepted()[i].0.column_types(),
                ),
            forall|i: int, j: int|
                0 <= i < j < Self::accepted().len() ==> Self::accepted()[i].0 != Self::accepted()[j].0,
    {
        assert(columns_typed(Self::accepted()[0].1, Self::accepted()[0].0.column_types()));
    }
}

} // verus!
