//! Validation problems: the reasons, the problems that carry them, and lists of problems.

use vstd::prelude::*;

use crate::attribute::Location;
use crate::colormap::NumberRange;
use crate::error::InvalidData;

verus! {

/// Validation failure reason.
///
/// Floating-point values are carried as their IEEE 754 bit patterns.
#[derive(Debug, Clone, PartialEq)]
pub enum Reason {
    /// A floating-point number is NaN, Inf, or -Inf.
    NotFinite,
    /// A size is zero or less.
    NotGreaterThanZero,
    /// Vector must have length one: the vector and its length.
    NotUnitVector([u64; 3], u64),
    /// Vectors must be at right angles.
    NotOrthogonal([u64; 3], [u64; 3]),
    /// A sub-blocked model says it uses octree mode but the sub-block counts are not
    /// powers of two.
    OctreeNotPowerOfTwo([u32; 3]),
    /// A grid or block model has size greater than 2³² in any direction.
    GridTooLarge(Vec<u64>),
    /// Attribute using a location that doesn't exist on the containing geometry.
    AttrLocationWrongForGeom(Location, &'static str),
    /// Attribute using a location that is impossible for the attribute data.
    AttrLocationWrongForAttr(Location, &'static str),
    /// Attribute length doesn't match the geometry and location.
    AttrLengthMismatch(u64, u64),
    /// Minimum is greater than maximum.
    MinMaxOutOfOrder(NumberRange),
    /// The data inside an array is invalid.
    InvalidData(InvalidData),
    /// A data file or index is missing from the zip.
    ZipMemberMissing(String),
    /// A field that must be unique is duplicated.
    NotUnique(String),
    /// A field that should be unique is duplicated.
    SoftNotUnique(String),
    /// Ran into the validation message limit.
    MoreErrors(u32),
    /// Ran into the validation message limit.
    MoreWarnings(u32),
}

/// The value of a [`Reason`], with text as characters and lists as sequences.
#[verifier::ext_equal]
pub enum ReasonView {
    NotFinite,
    NotGreaterThanZero,
    NotUnitVector([u64; 3], u64),
    NotOrthogonal([u64; 3], [u64; 3]),
    OctreeNotPowerOfTwo([u32; 3]),
    GridTooLarge(Seq<u64>),
    AttrLocationWrongForGeom(Location, Seq<char>),
    AttrLocationWrongForAttr(Location, Seq<char>),
    AttrLengthMismatch(u64, u64),
    MinMaxOutOfOrder(NumberRange),
    InvalidData(InvalidData),
    ZipMemberMissing(Seq<char>),
    NotUnique(Seq<char>),
    SoftNotUnique(Seq<char>),
    MoreErrors(u32),
    MoreWarnings(u32),
}

impl ReasonView {
    /// True for errors, false for warnings. Only duplicates that merely should be unique,
    /// and the count of discarded warnings, are warnings.
    pub open spec fn is_error(&self) -> bool {
        !(self is SoftNotUnique || self is MoreWarnings)
    }
}

impl View for Reason {
    type V = ReasonView;

    open spec fn view(&self) -> ReasonView {
        match self {
            Reason::NotFinite => ReasonView::NotFinite,
            Reason::NotGreaterThanZero => ReasonView::NotGreaterThanZero,
            Reason::NotUnitVector(v, l) => ReasonView::NotUnitVector(*v, *l),
            Reason::NotOrthogonal(a, b) => ReasonView::NotOrthogonal(*a, *b),
            Reason::OctreeNotPowerOfTwo(c) => ReasonView::OctreeNotPowerOfTwo(*c),
            Reason::GridTooLarge(c) => ReasonView::GridTooLarge(c@),
            Reason::AttrLocationWrongForGeom(l, t) => ReasonView::AttrLocationWrongForGeom(*l, t@),
            Reason::AttrLocationWrongForAttr(l, t) => ReasonView::AttrLocationWrongForAttr(*l, t@),
            Reason::AttrLengthMismatch(a, b) => ReasonView::AttrLengthMismatch(*a, *b),
            Reason::MinMaxOutOfOrder(r) => ReasonView::MinMaxOutOfOrder(*r),
            Reason::InvalidData(d) => ReasonView::InvalidData(*d),
            Reason::ZipMemberMissing(n) => ReasonView::ZipMemberMissing(n@),
            Reason::NotUnique(n) => ReasonView::NotUnique(n@),
            Reason::SoftNotUnique(n) => ReasonView::SoftNotUnique(n@),
            Reason::MoreErrors(n) => ReasonView::MoreErrors(*n),
            Reason::MoreWarnings(n) => ReasonView::MoreWarnings(*n),
        }
    }
}

impl Reason {
    /// True for errors, false for warnings. Only duplicates that merely should be unique,
    /// and the count of discarded warnings, are warnings.
    pub open spec fn spec_is_error(&self) -> bool {
        self@.is_error()
    }

    /// True if the reason is an error, false if it is a warning.
    pub fn is_error(&self) -> (b: bool)
        ensures
            b == self.spec_is_error(),
    {
        match self {
            Reason::SoftNotUnique(_) | Reason::MoreWarnings(_) => false,
            _ => true,
        }
    }
}

/// A single validation problem.
#[derive(Debug, Clone, PartialEq)]
pub struct Problem {
    /// Reason for the problem.
    pub reason: Reason,
    /// Type name of the failed object.
    pub ty: &'static str,
    /// Optional field name where the failure is.
    pub field: Option<&'static str>,
    /// Optional name of the containing object.
    pub name: Option<String>,
}

/// The value of a [`Problem`].
pub struct ProblemView {
    pub reason: ReasonView,
    pub ty: Seq<char>,
    pub field: Option<Seq<char>>,
    pub name: Option<Seq<char>>,
}

/// The text of an optional static string.
pub open spec fn opt_static(o: Option<&'static str>) -> Option<Seq<char>> {
    match o {
        Some(s) => Some(s@),
        None => None,
    }
}

/// The text of an optional string.
pub open spec fn opt_string(o: Option<String>) -> Option<Seq<char>> {
    match o {
        Some(s) => Some(s@),
        None => None,
    }
}

impl View for Problem {
    type V = ProblemView;

    open spec fn view(&self) -> ProblemView {
        ProblemView {
            reason: self.reason@,
            ty: self.ty@,
            field: opt_static(self.field),
            name: opt_string(self.name),
        }
    }
}

impl Problem {
    /// True if the reason is an error, false if it is a warning.
    pub fn is_error(&self) -> (b: bool)
        ensures
            b == self.reason.spec_is_error(),
    {
        self.reason.is_error()
    }
}

/// True if any problem in the list is an error.
pub open spec fn any_error(problems: Seq<ProblemView>) -> bool {
    exists|i: int| 0 <= i < problems.len() && #[trigger] problems[i].reason.is_error()
}

/// The values of a list of problems.
pub open spec fn problems_view(s: Seq<Problem>) -> Seq<ProblemView> {
    s.map_values(|p: Problem| p@)
}

/// A container of validation problems.
#[derive(Debug, Clone, PartialEq)]
pub struct Problems(Vec<Problem>);

impl View for Problems {
    type V = Seq<ProblemView>;

    closed spec fn view(&self) -> Seq<ProblemView> {
        problems_view(self.0@)
    }
}

impl Problems {
    /// An empty list.
    pub fn new() -> (p: Self)
        ensures
            p@.len() == 0,
    {
        let p = Problems(Vec::new());
        assert(p@ =~= Seq::<ProblemView>::empty());
        p
    }

    /// The list holding exactly the problems in `v`.
    pub fn from_vec(v: Vec<Problem>) -> (p: Self)
        ensures
            p@ == problems_view(v@),
    {
        Problems(v)
    }

    /// True if there are no problems.
    pub fn is_empty(&self) -> (b: bool)
        ensures
            b == (self@.len() == 0),
    {
        self.0.len() == 0
    }

    /// The number of problems.
    pub fn len(&self) -> (n: usize)
        ensures
            n == self@.len(),
    {
        self.0.len()
    }

    /// Converts to a vec without copying.
    pub fn into_vec(self) -> (v: Vec<Problem>)
        ensures
            problems_view(v@) == self@,
    {
        self.0
    }

    /// The problems, in the order they were found.
    pub fn iter(&self) -> (s: &[Problem])
        ensures
            problems_view(s@) == self@,
    {
        self.0.as_slice()
    }

    /// Ok if there are only warnings, Err if there are errors. Either way the problems are
    /// returned unchanged.
    pub fn into_result(self) -> (r: Result<Self, Self>)
        ensures
            r matches Ok(p) ==> p@ == self@ && !any_error(self@),
            r matches Err(p) ==> p@ == self@ && any_error(self@),
    {
        let mut i: usize = 0;
        while i < self.0.len()
            invariant
                i <= self@.len(),
                forall|j: int| 0 <= j < i ==> !(#[trigger] self@[j]).reason.is_error(),
            decreases self@.len() - i,
        {
            assert(self@[i as int] == self.0@[i as int]@);
            if self.0[i].is_error() {
                return Err(self);
            }
            i += 1;
        }
        Ok(self)
    }

    /// Adds a problem at the end of the list.
    pub fn push(
        &mut self,
        reason: Reason,
        ty: &'static str,
        field: Option<&'static str>,
        name: Option<String>,
    )
        ensures
            final(self)@ == old(self)@.push(
                ProblemView { reason: reason@, ty: ty@, field: opt_static(field), name: opt_string(name) },
            ),
    {
        let ghost before = self.0@;
        self.0.push(Problem { reason, ty, field, name });
        assert(problems_view(self.0@) =~= problems_view(before).push(self.0@.last()@));
    }
}

impl Default for Problems {
    /// An empty list.
    fn default() -> (p: Self)
        ensures
            p@.len() == 0,
    {
        Problems::new()
    }
}

} // verus!
