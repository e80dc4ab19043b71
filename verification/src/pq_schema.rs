//! Parquet schemas as plain values, and matching a file's schema against the schemas that an
//! array type accepts.

use vstd::prelude::*;

use crate::error::Error;
use crate::validator::{debug_str, debug_text};
use crate::zip_container::strings_view;

verus! {

/// Whether a Parquet field must hold a value.
#[derive(Debug, Clone, Copy, PartialEq, Eq, Structural)]
pub enum Repetition {
    Required,
    Optional,
    /// A repeated field. No schema that an array accepts has one.
    Repeated,
}

/// The physical storage type of a Parquet column.
#[derive(Debug, Clone, Copy, PartialEq, Eq, Structural)]
pub enum PhysicalType {
    Boolean,
    Int32,
    Int64,
    Int96,
    Float,
    Double,
    ByteArray,
    FixedLenByteArray,
}

/// The unit of a Parquet timestamp.
#[derive(Debug, Clone, Copy, PartialEq, Eq, Structural)]
pub enum TimeUnit {
    Millis,
    Micros,
    Nanos,
}

/// The logical type that gives meaning to a Parquet column's physical values.
#[derive(Debug, Clone, Copy, PartialEq, Eq, Structural)]
pub enum LogicalType {
    Utf8,
    Integer { bit_width: u8, is_signed: bool },
    Date,
    Timestamp { adjusted_to_utc: bool, unit: TimeUnit },
    /// Any other logical type. No schema that an array accepts uses one.
    Other,
}

/// The converted type of a Parquet field, the older annotation that logical types replace.
#[derive(Debug, Clone, Copy, PartialEq, Eq, Structural)]
pub enum ConvertedType {
    NoConversion,
    Utf8,
    KeyValueMap,
    MapKeyValue,
    List,
    Enum,
    Decimal,
    Date,
    TimeMillis,
    TimeMicros,
    TimestampMillis,
    TimestampMicros,
    Uint8,
    Uint16,
    Uint32,
    Uint64,
    Int8,
    Int16,
    Int32,
    Int64,
    Json,
    Bson,
    Interval,
}

/// The rest of what a Parquet column states about itself: its converted type, field id, and
/// the length, scale, and precision of its type (`-1` where unset).
#[derive(Debug, Clone, Copy, PartialEq, Eq, Structural)]
pub struct ColumnDetails {
    pub converted: ConvertedType,
    pub id: Option<i32>,
    pub type_length: i32,
    pub scale: i32,
    pub precision: i32,
}

/// The rest of what a Parquet group states about itself: its logical type, converted type,
/// and field id.
#[derive(Debug, Clone, Copy, PartialEq, Eq, Structural)]
pub struct GroupDetails {
    pub logical: Option<LogicalType>,
    pub converted: ConvertedType,
    pub id: Option<i32>,
}

/// One node of a Parquet schema: a column, or a group of nodes. The whole schema of a file
/// is a group without a repetition. Two schemas are the same when every node agrees in all
/// of this.
#[derive(Debug)]
#[allow(inconsistent_fields)]
pub enum SchemaType {
    Primitive {
        name: String,
        repetition: Repetition,
        physical: PhysicalType,
        logical: Option<LogicalType>,
        details: ColumnDetails,
    },
    Group {
        name: String,
        repetition: Option<Repetition>,
        details: GroupDetails,
        fields: Vec<SchemaType>,
    },
}

/// A schema node with its names as character sequences.
#[verifier::ext_equal]
#[allow(inconsistent_fields)]
pub enum SchemaView {
    Primitive {
        name: Seq<char>,
        repetition: Repetition,
        physical: PhysicalType,
        logical: Option<LogicalType>,
        details: ColumnDetails,
    },
    Group {
        name: Seq<char>,
        repetition: Option<Repetition>,
        details: GroupDetails,
        fields: Seq<SchemaView>,
    },
}

/// The details of a group that states nothing beyond its name, repetition, and fields.
pub open spec fn plain_group() -> GroupDetails {
    GroupDetails { logical: None, converted: ConvertedType::NoConversion, id: None }
}

impl SchemaType {
    /// The schema node, names and nested fields included, as a value.
    pub open spec fn deep(&self) -> SchemaView
        decreases self,
    {
        match self {
            SchemaType::Primitive { name, repetition, physical, logical, details } => SchemaView::Primitive {
                name: name@,
                repetition: *repetition,
                physical: *physical,
                logical: *logical,
                details: *details,
            },
            SchemaType::Group { name, repetition, details, fields } => SchemaView::Group {
                name: name@,
                repetition: *repetition,
                details: *details,
                fields: Seq::new(
                    fields@.len(),
                    |i: int|
                        if 0 <= i < fields@.len() {
                            fields@[i].deep()
                        } else {
                            SchemaView::Group { name: Seq::empty(), repetition: None, details: plain_group(), fields: Seq::empty() }
                        },
                ),
            },
        }
    }
}

/// The values of a sequence of schema nodes.
pub open spec fn deep_seq(s: Seq<SchemaType>) -> Seq<SchemaView> {
    Seq::new(s.len(), |i: int| s[i].deep())
}

/// Compares two optional logical types.
fn logical_eq(a: &Option<LogicalType>, b: &Option<LogicalType>) -> (r: bool)
    ensures
        r == (*a == *b),
{
    match (a, b) {
        (None, None) => true,
        (Some(x), Some(y)) => *x == *y,
        _ => false,
    }
}

/// Compares two optional repetitions.
fn repetition_eq(a: &Option<Repetition>, b: &Option<Repetition>) -> (r: bool)
    ensures
        r == (*a == *b),
{
    match (a, b) {
        (None, None) => true,
        (Some(x), Some(y)) => *x == *y,
        _ => false,
    }
}

/// Compares two optional field ids.
fn id_eq(a: &Option<i32>, b: &Option<i32>) -> (r: bool)
    ensures
        r == (*a == *b),
{
    match (a, b) {
        (None, None) => true,
        (Some(x), Some(y)) => *x == *y,
        _ => false,
    }
}

fn column_details_eq(a: &ColumnDetails, b: &ColumnDetails) -> (r: bool)
    ensures
        r == (*a == *b),
{
    a.converted == b.converted && id_eq(&a.id, &b.id) && a.type_length == b.type_length
        && a.scale == b.scale && a.precision == b.precision
}

fn group_details_eq(a: &GroupDetails, b: &GroupDetails) -> (r: bool)
    ensures
        r == (*a == *b),
{
    logical_eq(&a.logical, &b.logical) && a.converted == b.converted && id_eq(&a.id, &b.id)
}

/// Compares two schemas, node by node.
#[verifier::loop_isolation(false)]
pub fn schema_eq(a: &SchemaType, b: &SchemaType) -> (r: bool)
    ensures
        r == (a.deep() == b.deep()),
    decreases a,
{
    match (a, b) {
        (
            SchemaType::Primitive { name: n1, repetition: r1, physical: p1, logical: l1, details: d1 },
            SchemaType::Primitive { name: n2, repetition: r2, physical: p2, logical: l2, details: d2 },
        ) => {
            let same_name = *n1 == *n2;
            same_name && *r1 == *r2 && *p1 == *p2 && logical_eq(l1, l2) && column_details_eq(d1, d2)
        },
        (
            SchemaType::Group { name: n1, repetition: r1, details: d1, fields: f1 },
            SchemaType::Group { name: n2, repetition: r2, details: d2, fields: f2 },
        ) => {
            let same_name = *n1 == *n2;
            if !same_name || !repetition_eq(r1, r2) || !group_details_eq(d1, d2) || f1.len() != f2.len() {
                proof {
                    if f1.len() != f2.len() {
                        assert(a.deep()->Group_fields.len() != b.deep()->Group_fields.len());
                    }
                }
                return false;
            }
            let mut i: usize = 0;
            while i < f1.len()
                invariant
                    f1@.len() == f2@.len(),
                    i <= f1@.len(),
                    forall|j: int| 0 <= j < i ==> f1@[j].deep() == f2@[j].deep(),
                decreases f1.len() - i,
            {
                proof {
                    assert(decreases_to!(*f1 => f1@));
                    assert(decreases_to!(f1@ => f1@[i as int]));
                }
                if !schema_eq(&f1[i], &f2[i]) {
                    assert(a.deep()->Group_fields[i as int] != b.deep()->Group_fields[i as int]);
                    return false;
                }
                i = i + 1;
            }
            assert(a.deep()->Group_fields =~= b.deep()->Group_fields);
            true
        },
        _ => false,
    }
}

impl SchemaType {
    /// Makes an independent copy of the schema.
    #[verifier::loop_isolation(false)]
    pub fn copy(&self) -> (r: SchemaType)
        ensures
            r.deep() == self.deep(),
        decreases self,
    {
        match self {
            SchemaType::Primitive { name, repetition, physical, logical, details } => SchemaType::Primitive {
                name: name.clone(),
                repetition: *repetition,
                physical: *physical,
                logical: *logical,
                details: *details,
            },
            SchemaType::Group { name, repetition, details, fields } => {
                let mut out: Vec<SchemaType> = Vec::new();
                let mut i: usize = 0;
                while i < fields.len()
                    invariant
                        i <= fields@.len(),
                        out@.len() == i,
                        forall|j: int| 0 <= j < i ==> out@[j].deep() == fields@[j].deep(),
                    decreases fields.len() - i,
                {
                    proof {
                        assert(decreases_to!(*fields => fields@));
                        assert(decreases_to!(fields@ => fields@[i as int]));
                    }
                    out.push(fields[i].copy());
                    i = i + 1;
                }
                let r = SchemaType::Group {
                    name: name.clone(),
                    repetition: *repetition,
                    details: *details,
                    fields: out,
                };
                assert(r.deep()->Group_fields =~= self.deep()->Group_fields);
                r
            },
        }
    }
}

/// The converted type that Parquet's schema builder gives a column with this logical type,
/// for the logical types that the schemas arrays accept use.
pub open spec fn converted_for(logical: Option<LogicalType>) -> ConvertedType {
    match logical {
        Some(LogicalType::Utf8) => ConvertedType::Utf8,
        Some(LogicalType::Date) => ConvertedType::Date,
        Some(LogicalType::Timestamp { unit: TimeUnit::Millis, .. }) => ConvertedType::TimestampMillis,
        Some(LogicalType::Timestamp { unit: TimeUnit::Micros, .. }) => ConvertedType::TimestampMicros,
        Some(LogicalType::Integer { bit_width: 8, is_signed: true }) => ConvertedType::Int8,
        Some(LogicalType::Integer { bit_width: 16, is_signed: true }) => ConvertedType::Int16,
        Some(LogicalType::Integer { bit_width: 32, is_signed: true }) => ConvertedType::Int32,
        Some(LogicalType::Integer { bit_width: 64, is_signed: true }) => ConvertedType::Int64,
        Some(LogicalType::Integer { bit_width: 8, is_signed: false }) => ConvertedType::Uint8,
        Some(LogicalType::Integer { bit_width: 16, is_signed: false }) => ConvertedType::Uint16,
        Some(LogicalType::Integer { bit_width: 32, is_signed: false }) => ConvertedType::Uint32,
        Some(LogicalType::Integer { bit_width: 64, is_signed: false }) => ConvertedType::Uint64,
        _ => ConvertedType::NoConversion,
    }
}

/// The converted type for a logical type, as [`converted_for`] gives it.
pub fn converted_of(logical: Option<LogicalType>) -> (r: ConvertedType)
    ensures
        r == converted_for(logical),
{
    match logical {
        Some(LogicalType::Utf8) => ConvertedType::Utf8,
        Some(LogicalType::Date) => ConvertedType::Date,
        Some(LogicalType::Timestamp { unit: TimeUnit::Millis, .. }) => ConvertedType::TimestampMillis,
        Some(LogicalType::Timestamp { unit: TimeUnit::Micros, .. }) => ConvertedType::TimestampMicros,
        Some(LogicalType::Integer { bit_width: 8, is_signed: true }) => ConvertedType::Int8,
        Some(LogicalType::Integer { bit_width: 16, is_signed: true }) => ConvertedType::Int16,
        Some(LogicalType::Integer { bit_width: 32, is_signed: true }) => ConvertedType::Int32,
        Some(LogicalType::Integer { bit_width: 64, is_signed: true }) => ConvertedType::Int64,
        Some(LogicalType::Integer { bit_width: 8, is_signed: false }) => ConvertedType::Uint8,
        Some(LogicalType::Integer { bit_width: 16, is_signed: false }) => ConvertedType::Uint16,
        Some(LogicalType::Integer { bit_width: 32, is_signed: false }) => ConvertedType::Uint32,
        Some(LogicalType::Integer { bit_width: 64, is_signed: false }) => ConvertedType::Uint64,
        _ => ConvertedType::NoConversion,
    }
}

/// The details Parquet's schema builder gives a column with this logical type and nothing
/// else set: the matching converted type, no field id, and unset length, scale, and precision.
pub open spec fn built_column_details(logical: Option<LogicalType>) -> ColumnDetails {
    ColumnDetails {
        converted: converted_for(logical),
        id: None,
        type_length: -1i32,
        scale: -1i32,
        precision: -1i32,
    }
}

/// A column of a schema, as the schemas that arrays accept build it.
pub open spec fn column(
    name: Seq<char>,
    repetition: Repetition,
    physical: PhysicalType,
    logical: Option<LogicalType>,
) -> SchemaView {
    SchemaView::Primitive { name, repetition, physical, logical, details: built_column_details(logical) }
}

/// A named group of fields inside a schema.
pub open spec fn group(name: Seq<char>, repetition: Repetition, fields: Seq<SchemaView>) -> SchemaView {
    SchemaView::Group { name, repetition: Some(repetition), details: plain_group(), fields }
}

/// The whole schema of a file, a group named `schema`.
pub open spec fn message(fields: Seq<SchemaView>) -> SchemaView {
    SchemaView::Group { name: "schema"@, repetition: None, details: plain_group(), fields }
}

/// Builds a column as Parquet's schema builder does from a name, repetition, physical type,
/// and logical type.
pub fn column_of(
    name: &str,
    repetition: Repetition,
    physical: PhysicalType,
    logical: Option<LogicalType>,
) -> (r: SchemaType)
    ensures
        r.deep() == column(name@, repetition, physical, logical),
{
    let details = ColumnDetails {
        converted: converted_of(logical),
        id: None,
        type_length: -1,
        scale: -1,
        precision: -1,
    };
    SchemaType::Primitive { name: name.to_owned(), repetition, physical, logical, details }
}

fn plain_group_details() -> (d: GroupDetails)
    ensures
        d == plain_group(),
{
    GroupDetails { logical: None, converted: ConvertedType::NoConversion, id: None }
}

/// Builds a named group of fields.
pub fn group_of(name: &str, repetition: Repetition, fields: Vec<SchemaType>) -> (r: SchemaType)
    ensures
        r.deep() == group(name@, repetition, deep_seq(fields@)),
{
    let r = SchemaType::Group {
        name: name.to_owned(),
        repetition: Some(repetition),
        details: plain_group_details(),
        fields,
    };
    assert(r.deep()->Group_fields =~= deep_seq(fields@));
    r
}

/// Builds the whole schema of a file from its fields.
pub fn message_of(fields: Vec<SchemaType>) -> (r: SchemaType)
    ensures
        r.deep() == message(deep_seq(fields@)),
{
    let r = SchemaType::Group {
        name: "schema".to_owned(),
        repetition: None,
        details: plain_group_details(),
        fields,
    };
    assert(r.deep()->Group_fields =~= deep_seq(fields@));
    r
}

/// The fields of a group, or none for a column.
pub open spec fn fields_of(s: SchemaView) -> Seq<SchemaView> {
    match s {
        SchemaView::Group { fields, .. } => fields,
        SchemaView::Primitive { .. } => Seq::empty(),
    }
}

/// The columns that hold a schema's values: the fields of the schema, or those of its one
/// field where that is a group.
pub open spec fn value_columns(s: SchemaView) -> Seq<SchemaView> {
    let f = fields_of(s);
    if f.len() == 1 && f[0] is Group {
        fields_of(f[0])
    } else {
        f
    }
}

/// The physical and logical type of a column, or `None` for a group.
pub open spec fn column_type(c: SchemaView) -> Option<(PhysicalType, Option<LogicalType>)> {
    match c {
        SchemaView::Primitive { physical, logical, .. } => Some((physical, logical)),
        SchemaView::Group { .. } => None,
    }
}

/// True if the columns holding a schema's values have exactly these types, in order.
pub open spec fn columns_typed(s: SchemaView, types: Seq<(PhysicalType, Option<LogicalType>)>) -> bool {
    &&& value_columns(s).len() == types.len()
    &&& forall|k: int| 0 <= k < types.len() ==> column_type(#[trigger] value_columns(s)[k]) == Some(types[k])
}

/// The accepted schemas with the values they stand for.
pub open spec fn items_view<T>(items: Seq<(T, SchemaType)>) -> Seq<(T, SchemaView)> {
    Seq::new(items.len(), |i: int| (items[i].0, items[i].1.deep()))
}

/// The schemas alone.
pub open spec fn schemas_of<T>(items: Seq<(T, SchemaView)>) -> Seq<SchemaView> {
    Seq::new(items.len(), |i: int| items[i].1)
}

/// True if some accepted schema is `s`.
pub open spec fn accepts<T>(items: Seq<(T, SchemaView)>, s: SchemaView) -> bool {
    exists|i: int| 0 <= i < items.len() && items[i].1 == s
}

/// True if `i` is the first accepted schema that is `s`.
pub open spec fn first_match<T>(items: Seq<(T, SchemaView)>, s: SchemaView, i: int) -> bool {
    &&& 0 <= i < items.len()
    &&& items[i].1 == s
    &&& forall|j: int| 0 <= j < i ==> items[j].1 != s
}

/// What checking schema `s` against the accepted schemas gives: the value of the first
/// accepted schema equal to it, or, when there is none, a schema mismatch error that carries
/// the schema and all accepted schemas.
pub open spec fn check_result<T>(items: Seq<(T, SchemaView)>, s: SchemaView, r: Result<T, Error>) -> bool {
    &&& r is Ok <==> accepts(items, s)
    &&& r matches Ok(v) ==> exists|i: int| first_match(items, s, i) && v == items[i].0
    &&& r matches Err(e) ==> (e matches Error::ParquetSchemaMismatch(found, expected)
        && found.deep() == s && deep_seq(expected@) == schemas_of(items))
}

/// Checks file schemas against a list of accepted schemas, each paired with a value that
/// tells the reader how to read the data.
#[derive(Debug)]
pub struct PqArrayMatcher<T> {
    items: Vec<(T, SchemaType)>,
}

impl<T> View for PqArrayMatcher<T> {
    type V = Seq<(T, SchemaView)>;

    closed spec fn view(&self) -> Seq<(T, SchemaView)> {
        items_view(self.items@)
    }
}

impl<T: Copy> PqArrayMatcher<T> {
    /// Creates a matcher from a list of accepted schemas, each with its value.
    pub fn new(items: Vec<(T, SchemaType)>) -> (m: Self)
        ensures
            m@ == items_view(items@),
    {
        PqArrayMatcher { items }
    }

    /// Returns copies of the accepted schemas, in order.
    pub fn schemas(&self) -> (r: Vec<SchemaType>)
        ensures
            deep_seq(r@) == schemas_of(self@),
    {
        let mut out: Vec<SchemaType> = Vec::new();
        let mut i: usize = 0;
        while i < self.items.len()
            invariant
                i <= self.items@.len(),
                out@.len() == i,
                forall|j: int| 0 <= j < i ==> out@[j].deep() == self.items@[j].1.deep(),
            decreases self.items.len() - i,
        {
            out.push(self.items[i].1.copy());
            i = i + 1;
        }
        assert(deep_seq(out@) =~= schemas_of(self@));
        out
    }

    /// Checks a file's schema, returning the value of the first accepted schema equal to it,
    /// or a schema mismatch error that carries the schema and all accepted schemas.
    pub fn check(&self, schema: &SchemaType) -> (r: Result<T, Error>)
        ensures
            check_result(self@, schema.deep(), r),
    {
        let mut i: usize = 0;
        while i < self.items.len()
            invariant
                i <= self.items@.len(),
                forall|j: int| 0 <= j < i ==> self.items@[j].1.deep() != schema.deep(),
            decreases self.items.len() - i,
        {
            if schema_eq(&self.items[i].1, schema) {
                let v = self.items[i].0;
                assert(first_match(self@, schema.deep(), i as int));
                return Ok(v);
            }
            i = i + 1;
        }
        assert(!accepts(self@, schema.deep()));
        Err(Error::ParquetSchemaMismatch(schema.copy(), self.schemas()))
    }
}

/// A leaf column of a file's schema: its path from the root, and its types.
#[derive(Debug, Clone)]
pub struct Column {
    pub path: Vec<String>,
    pub repetition: Repetition,
    pub physical: PhysicalType,
    pub logical: Option<LogicalType>,
}

/// The logical types that a reader accepts for a column.
#[derive(Debug, Clone, Copy, PartialEq, Eq)]
pub enum LogicalCheck {
    /// Exactly this logical type, or exactly none.
    Exactly(Option<LogicalType>),
    /// Any timestamp, whatever its unit.
    AnyTimestamp,
}

/// True if the check accepts the logical type.
pub open spec fn logical_accepts(check: LogicalCheck, l: Option<LogicalType>) -> bool {
    match check {
        LogicalCheck::Exactly(e) => l == e,
        LogicalCheck::AnyTimestamp => l matches Some(LogicalType::Timestamp { .. }),
    }
}

/// True if a column with this repetition can be read as required values (`nullable` false)
/// or nullable ones: required columns both ways, optional ones only as nullable.
pub open spec fn repetition_accepts(r: Repetition, nullable: bool) -> bool {
    match r {
        Repetition::Required => true,
        Repetition::Optional => nullable,
        Repetition::Repeated => false,
    }
}

/// The parts of a path joined with dots.
pub open spec fn dotted(p: Seq<Seq<char>>) -> Seq<char>
    decreases p.len(),
{
    if p.len() == 0 {
        Seq::empty()
    } else if p.len() == 1 {
        p[0]
    } else {
        dotted(p.drop_last()) + seq!['.'] + p.last()
    }
}

/// The position of the first column whose path is `p`, if any.
pub open spec fn find_column(cs: Seq<Column>, p: Seq<Seq<char>>) -> Option<int>
    decreases cs.len(),
{
    if cs.len() == 0 {
        None
    } else {
        match find_column(cs.drop_last(), p) {
            Some(i) => Some(i),
            None => if strings_view(cs.last().path@) == p {
                Some(cs.len() - 1)
            } else {
                None
            },
        }
    }
}

/// The message for a column that is not in the file.
pub open spec fn not_found_message(p: Seq<Seq<char>>) -> Seq<char> {
    "Parquet column not found: "@ + debug_text(dotted(p))
}

/// What checking a column gives: the position of the first column with the path when its
/// physical type, logical type, and repetition suit the reader, else the error message.
pub open spec fn column_result(
    cs: Seq<Column>,
    p: Seq<Seq<char>>,
    physical: PhysicalType,
    logical: LogicalCheck,
    nullable: bool,
) -> Result<int, Seq<char>> {
    match find_column(cs, p) {
        None => Err(not_found_message(p)),
        Some(i) => if cs[i].physical != physical || !logical_accepts(logical, cs[i].logical) {
            Err("column type mismatch"@)
        } else if !repetition_accepts(cs[i].repetition, nullable) {
            Err("column repetition mismatch"@)
        } else {
            Ok(i)
        },
    }
}

proof fn lemma_find_column_bounds(cs: Seq<Column>, p: Seq<Seq<char>>)
    ensures
        find_column(cs, p) matches Some(i) ==> 0 <= i < cs.len() && strings_view(cs[i].path@) == p,
        find_column(cs, p) is None ==> forall|j: int| 0 <= j < cs.len() ==> strings_view(#[trigger] cs[j].path@) != p,
    decreases cs.len(),
{
    if cs.len() > 0 {
        lemma_find_column_bounds(cs.drop_last(), p);
        assert forall|j: int| 0 <= j < cs.len() - 1 implies cs.drop_last()[j] == #[trigger] cs[j] by {}
    }
}

proof fn lemma_find_column_first(cs: Seq<Column>, p: Seq<Seq<char>>)
    ensures
        find_column(cs, p) matches Some(i) ==> forall|j: int|
            0 <= j < i ==> strings_view(#[trigger] cs[j].path@) != p,
    decreases cs.len(),
{
    if cs.len() > 0 {
        let init = cs.drop_last();
        lemma_find_column_first(init, p);
        lemma_find_column_bounds(init, p);
        assert forall|j: int| 0 <= j < cs.len() - 1 implies init[j] == #[trigger] cs[j] by {}
    }
}

/// Checking a column finds the first column with the path, and succeeds exactly when there
/// is one whose physical type is the one asked for, whose logical type the check accepts,
/// and whose repetition can be read as asked; a path no column has is reported as not found.
pub proof fn lemma_column_result(
    cs: Seq<Column>,
    p: Seq<Seq<char>>,
    physical: PhysicalType,
    logical: LogicalCheck,
    nullable: bool,
)
    ensures
        column_result(cs, p, physical, logical, nullable) matches Ok(i) ==> {
            &&& 0 <= i < cs.len()
            &&& strings_view(cs[i].path@) == p
            &&& forall|j: int| 0 <= j < i ==> strings_view(#[trigger] cs[j].path@) != p
            &&& cs[i].physical == physical
            &&& logical_accepts(logical, cs[i].logical)
            &&& repetition_accepts(cs[i].repetition, nullable)
        },
        (forall|j: int| 0 <= j < cs.len() ==> strings_view(#[trigger] cs[j].path@) != p)
            ==> column_result(cs, p, physical, logical, nullable) == Err::<int, Seq<char>>(
            not_found_message(p),
        ),
        forall|i: int|
            0 <= i < cs.len() && strings_view(#[trigger] cs[i].path@) == p && (forall|j: int|
                0 <= j < i ==> strings_view(#[trigger] cs[j].path@) != p) && cs[i].physical
                == physical && logical_accepts(logical, cs[i].logical) && repetition_accepts(
                cs[i].repetition,
                nullable,
            ) ==> column_result(cs, p, physical, logical, nullable) == Ok::<int, Seq<char>>(i),
{
    lemma_find_column_bounds(cs, p);
    lemma_find_column_first(cs, p);
    if forall|j: int| 0 <= j < cs.len() ==> strings_view(#[trigger] cs[j].path@) != p {
        lemma_find_column_none(cs, p);
    }
    assert forall|i: int|
        0 <= i < cs.len() && strings_view(#[trigger] cs[i].path@) == p && (forall|j: int|
            0 <= j < i ==> strings_view(#[trigger] cs[j].path@) != p) && cs[i].physical
            == physical && logical_accepts(logical, cs[i].logical) && repetition_accepts(
            cs[i].repetition,
            nullable,
        ) implies column_result(cs, p, physical, logical, nullable) == Ok::<int, Seq<char>>(i) by {
        match find_column(cs, p) {
            Some(k) => {
                if k < i {
                } else if k > i {
                    assert(strings_view(cs[i].path@) != p);
                }
            },
            None => {
                assert(strings_view(cs[i].path@) != p);
            },
        }
    }
}

/// The first column whose path is `p`, found by looking at each in turn.
proof fn lemma_find_column_prefix(cs: Seq<Column>, p: Seq<Seq<char>>, n: int)
    requires
        0 <= n < cs.len(),
        forall|j: int| 0 <= j < n ==> strings_view(#[trigger] cs[j].path@) != p,
    ensures
        find_column(cs.take(n + 1), p) == if strings_view(cs[n].path@) == p {
            Some(n)
        } else {
            None::<int>
        },
    decreases n,
{
    let t = cs.take(n + 1);
    assert(t.drop_last() =~= cs.take(n));
    if n > 0 {
        lemma_find_column_prefix(cs, p, n - 1);
        assert(cs.take(n).drop_last() =~= cs.take(n - 1));
    } else {
        assert(cs.take(0) =~= Seq::<Column>::empty());
    }
    lemma_find_column_bounds(cs.take(n), p);
}

/// Compares two paths part by part.
fn path_eq(a: &Vec<String>, b: &[String]) -> (r: bool)
    ensures
        r == (strings_view(a@) == strings_view(b@)),
{
    if a.len() != b.len() {
        proof {
            assert(strings_view(a@).len() != strings_view(b@).len());
        }
        return false;
    }
    let mut i: usize = 0;
    while i < a.len()
        invariant
            a@.len() == b@.len(),
            i <= a@.len(),
            forall|j: int| 0 <= j < i ==> a@[j]@ == b@[j]@,
        decreases a.len() - i,
    {
        if a[i] != b[i] {
            proof {
                assert(strings_view(a@)[i as int] != strings_view(b@)[i as int]);
            }
            return false;
        }
        i = i + 1;
    }
    assert(strings_view(a@) =~= strings_view(b@));
    true
}

/// The parts of a path joined with dots.
fn join_path(p: &[String]) -> (s: String)
    ensures
        s@ == dotted(strings_view(p@)),
{
    let ghost v = strings_view(p@);
    let mut s = String::new();
    let mut i: usize = 0;
    while i < p.len()
        invariant
            i <= p@.len(),
            v == strings_view(p@),
            s@ == dotted(v.take(i as int)),
        decreases p.len() - i,
    {
        proof {
            reveal_strlit(".");
            assert(v.take(i + 1).drop_last() =~= v.take(i as int));
            assert(v.take(i + 1).last() == p@[i as int]@);
            if i == 0 {
                assert(v.take(0) =~= Seq::<Seq<char>>::empty());
            }
        }
        if i > 0 {
            s.append(".");
        }
        s.append(p[i].as_str());
        proof {
            if i == 0 {
                assert(s@ =~= v.take(1)[0]);
            } else {
                assert(s@ =~= dotted(v.take(i as int)) + seq!['.'] + v.take(i + 1).last());
            }
        }
        i = i + 1;
    }
    assert(v.take(p@.len() as int) =~= v);
    s
}

/// Finds the column with the given path among a file's leaf columns and checks that a reader
/// of this physical type, logical types, and nullability can read it. Returns the column's
/// position, or a Parquet error saying that the column is missing or which check failed.
pub fn check_column(
    columns: &[Column],
    path: &[String],
    physical: PhysicalType,
    logical: LogicalCheck,
    nullable: bool,
) -> (r: Result<usize, Error>)
    ensures
        match column_result(columns@, strings_view(path@), physical, logical, nullable) {
            Ok(i) => r == Ok::<usize, Error>(i as usize),
            Err(m) => r matches Err(Error::ParquetError(s)) && s@ == m,
        },
{
    let ghost p = strings_view(path@);
    let mut i: usize = 0;
    while i < columns.len()
        invariant
            i <= columns@.len(),
            p == strings_view(path@),
            forall|j: int| 0 <= j < i ==> strings_view(#[trigger] columns@[j].path@) != p,
        decreases columns.len() - i,
    {
        if path_eq(&columns[i].path, path) {
            proof {
                lemma_find_column_prefix(columns@, p, i as int);
                lemma_find_column_rest(columns@, p, i as int + 1);
            }
            let c = &columns[i];
            let logical_ok = match logical {
                LogicalCheck::Exactly(e) => match (c.logical, e) {
                    (None, None) => true,
                    (Some(x), Some(y)) => x == y,
                    _ => false,
                },
                LogicalCheck::AnyTimestamp => match c.logical {
                    Some(LogicalType::Timestamp { .. }) => true,
                    _ => false,
                },
            };
            if c.physical != physical || !logical_ok {
                return Err(Error::ParquetError(String::from_str("column type mismatch")));
            }
            let rep_ok = match c.repetition {
                Repetition::Required => true,
                Repetition::Optional => nullable,
                Repetition::Repeated => false,
            };
            if !rep_ok {
                return Err(Error::ParquetError(String::from_str("column repetition mismatch")));
            }
            return Ok(i);
        }
        i = i + 1;
    }
    proof {
        lemma_find_column_none(columns@, p);
        reveal_strlit("Parquet column not found: ");
    }
    let mut m = String::from_str("Parquet column not found: ");
    let joined = join_path(path);
    let quoted = debug_str(joined.as_str());
    m.append(quoted.as_str());
    Err(Error::ParquetError(m))
}

/// Once the first `n` columns include the first match, later columns change nothing.
proof fn lemma_find_column_rest(cs: Seq<Column>, p: Seq<Seq<char>>, n: int)
    requires
        0 < n <= cs.len(),
        find_column(cs.take(n), p) is Some,
    ensures
        find_column(cs, p) == find_column(cs.take(n), p),
    decreases cs.len() - n,
{
    if n < cs.len() {
        assert(cs.drop_last().take(n) =~= cs.take(n));
        lemma_find_column_rest(cs.drop_last(), p, n);
    } else {
        assert(cs.take(n) =~= cs);
    }
}

/// With no column matching, nothing is found.
proof fn lemma_find_column_none(cs: Seq<Column>, p: Seq<Seq<char>>)
    requires
        forall|j: int| 0 <= j < cs.len() ==> strings_view(#[trigger] cs[j].path@) != p,
    ensures
        find_column(cs, p) is None,
    decreases cs.len(),
{
    if cs.len() > 0 {
        assert forall|j: int| 0 <= j < cs.len() - 1 implies strings_view(
            #[trigger] cs.drop_last()[j].path@,
        ) != p by {
            assert(cs.drop_last()[j] == cs[j]);
        }
        lemma_find_column_none(cs.drop_last(), p);
        assert(cs.last() == cs[cs.len() - 1]);
    }
}

} // verus!
