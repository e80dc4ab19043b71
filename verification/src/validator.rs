//! Collecting validation problems, with the checks that need no floating-point arithmetic.

use vstd::prelude::*;
use vstd::arithmetic::power2::pow2;

use crate::array::{Array, ArrayType, Constraint};
use crate::float_bits::{
    f64_is_finite, f64_le, f64_le_zero, is_finite_bits, le_bits, le_zero_bits,
};
use crate::attribute::Location;
use crate::block_model::SubblockMode;
use crate::problem::{opt_static, Problem, ProblemView, Problems, Reason, ReasonView};
use crate::text::str_equal;
use crate::write_checks::check_failures;
use crate::zip_container::strings_view;

verus! {

/// The Rust debug text of a string: the string in double quotes, with quotes, backslashes,
/// and characters that are not printable escaped.
pub uninterp spec fn debug_text(s: Seq<char>) -> Seq<char>;

/// Formats a string with its `Debug` implementation.
///
/// Trusted: the result is named [`debug_text`] of the string; `format!("{:?}", s)` depends
/// on nothing but the string.
#[verifier::external_body]
pub(crate) fn debug_str(s: &str) -> (r: String)
    ensures
        r@ == debug_text(s@),
{
    format!("{:?}", s)
}

/// Objects that can be validated.
pub trait Validate {
    /// Adds the object's problems to the validator.
    fn validate_inner(&mut self, val: &mut Validator);

    /// Validates the object, returning errors and warnings.
    ///
    /// The `Ok` value is a `Problems` object contain that is either empty or contains
    /// only warnings. The `Err` value is a `Problems` object containing at least one
    /// error.
    fn validate(&mut self) -> (r: Result<Problems, Problems>)
        ensures
            r matches Ok(p) ==> !crate::problem::any_error(p@),
            r matches Err(p) ==> crate::problem::any_error(p@),
    {
        let mut val = Validator::new();
        self.validate_inner(&mut val);
        val.finish().into_result()
    }
}

/// The problems recorded so far and the numbers of errors and warnings discarded beyond
/// the limit.
pub struct Tally {
    pub problems: Seq<ProblemView>,
    pub extra_errors: u32,
    pub extra_warnings: u32,
}

/// `x + 1`, staying at the largest `u32`.
pub open spec fn inc(x: u32) -> u32 {
    if x < u32::MAX {
        (x + 1) as u32
    } else {
        x
    }
}

/// Records one problem: it is kept if there is no limit or fewer problems than the limit
/// are kept, and otherwise counted as a discarded error or warning.
pub open spec fn tally_push(t: Tally, limit: Option<usize>, p: ProblemView) -> Tally {
    match limit {
        Some(l) if t.problems.len() >= l => if p.reason.is_error() {
            Tally { extra_errors: inc(t.extra_errors), ..t }
        } else {
            Tally { extra_warnings: inc(t.extra_warnings), ..t }
        },
        _ => Tally { problems: t.problems.push(p), ..t },
    }
}

/// Records problems in turn.
pub open spec fn tally_push_all(t: Tally, limit: Option<usize>, ps: Seq<ProblemView>) -> Tally
    decreases ps.len(),
{
    if ps.len() == 0 {
        t
    } else {
        tally_push(tally_push_all(t, limit, ps.drop_last()), limit, ps.last())
    }
}

/// The problems made of `reasons`, all with the same type, field, and name.
pub open spec fn problems_for(
    reasons: Seq<ReasonView>,
    ty: Seq<char>,
    field: Option<Seq<char>>,
    name: Option<Seq<char>>,
) -> Seq<ProblemView> {
    reasons.map_values(|r: ReasonView| ProblemView { reason: r, ty, field, name })
}

/// The values of a list of reasons.
pub open spec fn reasons_view(rs: Seq<Reason>) -> Seq<ReasonView> {
    rs.map_values(|r: Reason| r@)
}

/// The number of times `x` occurs in `s`.
pub open spec fn count_of(s: Seq<Seq<char>>, x: Seq<char>) -> nat
    decreases s.len(),
{
    if s.len() == 0 {
        0
    } else {
        count_of(s.drop_last(), x) + if s.last() == x {
            1nat
        } else {
            0nat
        }
    }
}

/// The reasons reported when checking that `names` are unique: one for each name that has
/// occurred exactly once before, in order.
pub open spec fn duplicate_reasons(names: Seq<Seq<char>>, is_error: bool) -> Seq<ReasonView>
    decreases names.len(),
{
    if names.len() == 0 {
        Seq::empty()
    } else {
        let rest = duplicate_reasons(names.drop_last(), is_error);
        if count_of(names.drop_last(), names.last()) == 1 {
            rest.push(
                if is_error {
                    ReasonView::NotUnique(debug_text(names.last()))
                } else {
                    ReasonView::SoftNotUnique(debug_text(names.last()))
                },
            )
        } else {
            rest
        }
    }
}

/// What the attribute checks need to know about an attribute.
#[derive(Debug, Clone)]
pub struct AttributeSummary {
    /// The attribute's name.
    pub name: String,
    /// Where the attribute is attached.
    pub location: Location,
    /// True if the attribute is a projected texture.
    pub projected_texture: bool,
    /// The name of the kind of data in the attribute.
    pub kind: &'static str,
    /// The number of values in the attribute.
    pub len: u64,
}

/// What the attribute checks need to know about a geometry: its name and how many items it
/// has at each location where attributes can be attached.
#[derive(Debug, Clone, Copy)]
pub struct GeometrySummary {
    pub kind: &'static str,
    pub vertices: Option<u64>,
    pub primitives: Option<u64>,
    pub subblocks: Option<u64>,
    pub elements: Option<u64>,
}

impl GeometrySummary {
    /// The number of items at a location, or `None` if attributes can't be attached there.
    /// Projected textures have no items; categories belong only to category attributes.
    pub open spec fn spec_location_len(&self, location: Location) -> Option<u64> {
        match location {
            Location::Vertices => self.vertices,
            Location::Primitives => self.primitives,
            Location::Subblocks => self.subblocks,
            Location::Elements => self.elements,
            Location::Projected => Some(0),
            Location::Categories => None,
        }
    }

    /// Returns the number of items at a location, as [`Self::spec_location_len`] says.
    pub fn location_len(&self, location: Location) -> (r: Option<u64>)
        ensures
            r == self.spec_location_len(location),
    {
        match location {
            Location::Vertices => self.vertices,
            Location::Primitives => self.primitives,
            Location::Subblocks => self.subblocks,
            Location::Elements => self.elements,
            Location::Projected => Some(0),
            Location::Categories => None,
        }
    }
}

/// The problem, if any, with one attribute on a geometry.
pub open spec fn attr_on_geometry_problem(a: AttributeSummary, g: GeometrySummary) -> Option<
    ProblemView,
> {
    if a.projected_texture != (a.location == Location::Projected) {
        Some(
            ProblemView {
                reason: ReasonView::AttrLocationWrongForAttr(a.location, a.kind@),
                ty: "Attribute"@,
                field: Some("location"@),
                name: Some(a.name@),
            },
        )
    } else {
        match g.spec_location_len(a.location) {
            Some(n) => if n != a.len {
                Some(
                    ProblemView {
                        reason: ReasonView::AttrLengthMismatch(a.len, n),
                        ty: "Attribute"@,
                        field: None,
                        name: Some(a.name@),
                    },
                )
            } else {
                None
            },
            None => Some(
                ProblemView {
                    reason: ReasonView::AttrLocationWrongForGeom(a.location, g.kind@),
                    ty: "Attribute"@,
                    field: Some("location"@),
                    name: Some(a.name@),
                },
            ),
        }
    }
}

/// The problem, if any, with one sub-attribute of a category attribute.
pub open spec fn attr_on_attribute_problem(a: AttributeSummary, n_categories: u64) -> Option<
    ProblemView,
> {
    if a.location != Location::Categories {
        Some(
            ProblemView {
                reason: ReasonView::AttrLocationWrongForGeom(
                    a.location,
                    "AttributeData::Categories"@,
                ),
                ty: "Attribute"@,
                field: Some("location"@),
                name: Some(a.name@),
            },
        )
    } else if a.len != n_categories {
        Some(
            ProblemView {
                reason: ReasonView::AttrLengthMismatch(a.len, n_categories),
                ty: "Attribute"@,
                field: None,
                name: Some(a.name@),
            },
        )
    } else {
        None
    }
}

/// The problems found by a check applied to each item in turn.
pub open spec fn problems_of<T>(items: Seq<T>, f: spec_fn(T) -> Option<ProblemView>) -> Seq<
    ProblemView,
>
    decreases items.len(),
{
    if items.len() == 0 {
        Seq::empty()
    } else {
        let rest = problems_of(items.drop_last(), f);
        match f(items.last()) {
            Some(p) => rest.push(p),
            None => rest,
        }
    }
}

/// True if `n` is a power of two.
pub open spec fn is_power_of_two(n: u32) -> bool {
    exists|k: nat| k < 32 && n == pow2(k)
}


/// True if a number range has its minimum above its maximum; floating-point ranges with a
/// limit that is not finite are not compared.
pub open spec fn range_out_of_order(range: crate::colormap::NumberRange) -> bool {
    match range {
        crate::colormap::NumberRange::Float { min_bits, max_bits } => f64_is_finite(min_bits)
            && f64_is_finite(max_bits) && !f64_le(min_bits, max_bits),
        crate::colormap::NumberRange::Integer { min, max } => min > max,
        crate::colormap::NumberRange::Date { min, max } => min > max,
        crate::colormap::NumberRange::DateTime { min, max } => min > max,
    }
}

/// Collects validation problems for an object and everything inside it.
pub struct Validator {
    filenames: Option<Vec<String>>,
    problems: Vec<Problem>,
    ty: &'static str,
    name: Option<String>,
    limit: Option<usize>,
    extra_errors: u32,
    extra_warnings: u32,
}


/// Adding one more problem to a list records it after the others.
proof fn lemma_push_all_snoc(t: Tally, limit: Option<usize>, ps: Seq<ProblemView>, p: ProblemView)
    ensures
        tally_push_all(t, limit, ps.push(p)) == tally_push(tally_push_all(t, limit, ps), limit, p),
{
    assert(ps.push(p).drop_last() =~= ps);
}

/// Recording two lists of problems in turn is recording them joined.
pub proof fn lemma_push_all_append(t: Tally, limit: Option<usize>, a: Seq<ProblemView>, b: Seq<ProblemView>)
    ensures
        tally_push_all(t, limit, a + b) == tally_push_all(tally_push_all(t, limit, a), limit, b),
    decreases b.len(),
{
    if b.len() == 0 {
        assert(a + b =~= a);
    } else {
        assert((a + b).drop_last() =~= a + b.drop_last());
        assert((a + b).last() == b.last());
        lemma_push_all_append(t, limit, a, b.drop_last());
    }
}

impl Validator {
    /// The problems kept and the counts of those discarded.
    pub closed spec fn spec_tally(&self) -> Tally {
        Tally {
            problems: crate::problem::problems_view(self.problems@),
            extra_errors: self.extra_errors,
            extra_warnings: self.extra_warnings,
        }
    }

    /// The largest number of problems kept, if limited.
    pub closed spec fn spec_limit(&self) -> Option<usize> {
        self.limit
    }

    /// The type name given to problems.
    pub closed spec fn spec_ty(&self) -> Seq<char> {
        self.ty@
    }

    /// The object name given to problems, if any.
    pub closed spec fn spec_name(&self) -> Option<Seq<char>> {
        match self.name {
            Some(n) => Some(n@),
            None => None,
        }
    }

    /// The names of the archive members that arrays may refer to, if known.
    pub closed spec fn spec_filenames(&self) -> Option<Seq<Seq<char>>> {
        match self.filenames {
            Some(f) => Some(strings_view(f@)),
            None => None,
        }
    }

    /// True if the validator's state is unchanged apart from its problems.
    pub open spec fn same_settings(&self, other: &Validator) -> bool {
        &&& self.spec_limit() == other.spec_limit()
        &&& self.spec_ty() == other.spec_ty()
        &&& self.spec_name() == other.spec_name()
        &&& self.spec_filenames() == other.spec_filenames()
    }

    /// A problem at the validator's current type and name.
    pub open spec fn problem_here(&self, reason: ReasonView, field: Option<Seq<char>>) -> ProblemView {
        ProblemView { reason, ty: self.spec_ty(), field, name: self.spec_name() }
    }

    /// A validator with no problems, no limit, and no known archive members.
    pub fn new() -> (v: Self)
        ensures
            v.spec_tally().problems.len() == 0,
            v.spec_tally().extra_errors == 0,
            v.spec_tally().extra_warnings == 0,
            v.spec_limit() is None,
            v.spec_ty() == ""@,
            v.spec_name() is None,
            v.spec_filenames() is None,
    {
        Validator {
            filenames: None,
            problems: Vec::new(),
            ty: "",
            name: None,
            limit: None,
            extra_errors: 0,
            extra_warnings: 0,
        }
    }

    /// Sets the archive members that arrays may refer to; arrays naming any other member
    /// are reported.
    pub fn with_filenames(self, filenames: Vec<String>) -> (v: Self)
        ensures
            v.spec_filenames() == Some(strings_view(filenames@)),
            v.spec_tally() == self.spec_tally(),
            v.spec_limit() == self.spec_limit(),
            v.spec_ty() == self.spec_ty(),
            v.spec_name() == self.spec_name(),
    {
        Validator { filenames: Some(filenames), ..self }
    }

    /// Sets the largest number of problems to keep; problems beyond it are only counted.
    pub fn with_limit(self, limit: Option<u32>) -> (v: Self)
        ensures
            v.spec_limit() == match limit {
                Some(n) => Some(n as usize),
                None => None,
            },
            v.spec_tally() == self.spec_tally(),
            v.spec_filenames() == self.spec_filenames(),
            v.spec_ty() == self.spec_ty(),
            v.spec_name() == self.spec_name(),
    {
        let limit = match limit {
            Some(n) => Some(n as usize),
            None => None,
        };
        Validator { limit, ..self }
    }

    /// Starts reporting problems against type `ty`, keeping the current object name.
    pub fn enter(&mut self, ty: &'static str)
        ensures
            final(self).spec_ty() == ty@,
            final(self).spec_name() == old(self).spec_name(),
            final(self).spec_tally() == old(self).spec_tally(),
            final(self).spec_limit() == old(self).spec_limit(),
            final(self).spec_filenames() == old(self).spec_filenames(),
    {
        self.ty = ty;
    }

    /// Starts reporting problems as inside the object called `name`.
    pub fn name(&mut self, name: &str)
        ensures
            final(self).spec_name() == Some(name@),
            final(self).spec_ty() == old(self).spec_ty(),
            final(self).spec_tally() == old(self).spec_tally(),
            final(self).spec_limit() == old(self).spec_limit(),
            final(self).spec_filenames() == old(self).spec_filenames(),
    {
        self.name = Some(String::from_str(name));
    }

    fn push_full(
        &mut self,
        reason: Reason,
        ty: &'static str,
        field: Option<&'static str>,
        name: Option<&str>,
    )
        ensures
            final(self).spec_tally() == tally_push(
                old(self).spec_tally(),
                old(self).spec_limit(),
                ProblemView {
                    reason: reason@,
                    ty: ty@,
                    field: opt_static(field),
                    name: match name {
                        Some(n) => Some(n@),
                        None => None,
                    },
                },
            ),
            final(self).same_settings(&*old(self)),
    {
        let full = match self.limit {
            Some(limit) => self.problems.len() >= limit,
            None => false,
        };
        if full {
            if reason.is_error() {
                self.extra_errors = self.extra_errors.saturating_add(1);
            } else {
                self.extra_warnings = self.extra_warnings.saturating_add(1);
            }
        } else {
            let name = match name {
                Some(n) => Some(String::from_str(n)),
                None => None,
            };
            let ghost before = self.problems@;
            self.problems.push(Problem { reason, ty, field, name });
            assert(crate::problem::problems_view(self.problems@) =~= crate::problem::problems_view(
                before,
            ).push(self.problems@.last()@));
        }
    }

    /// Reports a problem against the current type and object name.
    pub fn push(&mut self, reason: Reason, field: Option<&'static str>)
        ensures
            final(self).spec_tally() == tally_push(
                old(self).spec_tally(),
                old(self).spec_limit(),
                old(self).problem_here(reason@, opt_static(field)),
            ),
            final(self).same_settings(&*old(self)),
    {
        let ty = self.ty;
        let owned = match &self.name {
            Some(n) => Some(n.clone()),
            None => None,
        };
        let name = match &owned {
            Some(n) => Some(n.as_str()),
            None => None,
        };
        self.push_full(reason, ty, field, name);
    }

    /// Finishes validation, returning the problems kept followed by the numbers of warnings
    /// and errors discarded, where there were any.
    pub fn finish(self) -> (p: Problems)
        ensures
            p@ == self.spec_tally().problems + (if self.spec_tally().extra_warnings > 0 {
                seq![self.problem_here(ReasonView::MoreWarnings(self.spec_tally().extra_warnings), None)]
            } else {
                Seq::empty()
            }) + (if self.spec_tally().extra_errors > 0 {
                seq![self.problem_here(ReasonView::MoreErrors(self.spec_tally().extra_errors), None)]
            } else {
                Seq::empty()
            }),
    {
        let mut problems = Problems::from_vec(self.problems);
        let ghost p0 = problems@;
        if self.extra_warnings > 0 {
            let name = match &self.name {
                Some(n) => Some(String::from_str(n.as_str())),
                None => None,
            };
            problems.push(Reason::MoreWarnings(self.extra_warnings), self.ty, None, name);
        }
        let ghost p1 = problems@;
        if self.extra_errors > 0 {
            let name = match &self.name {
                Some(n) => Some(String::from_str(n.as_str())),
                None => None,
            };
            problems.push(Reason::MoreErrors(self.extra_errors), self.ty, None, name);
        }
        assert(problems@ =~= self.spec_tally().problems + (if self.spec_tally().extra_warnings > 0 {
            seq![self.problem_here(ReasonView::MoreWarnings(self.spec_tally().extra_warnings), None)]
        } else {
            Seq::empty()
        }) + (if self.spec_tally().extra_errors > 0 {
            seq![self.problem_here(ReasonView::MoreErrors(self.spec_tally().extra_errors), None)]
        } else {
            Seq::empty()
        }));
        problems
    }

    /// Validates an object, then goes back to the current type and object name.
    pub fn obj<T: Validate>(&mut self, obj: &mut T)
        ensures
            final(self).spec_ty() == old(self).spec_ty(),
            final(self).spec_name() == old(self).spec_name(),
    {
        let ty = self.ty;
        let name = self.name.clone();
        obj.validate_inner(self);
        self.ty = ty;
        self.name = name;
    }

    /// Validates each object in turn, then goes back to the current type and object name.
    pub fn objs<T: Validate>(&mut self, objs: &mut Vec<T>)
        ensures
            final(objs)@.len() == old(objs)@.len(),
            final(self).spec_ty() == old(self).spec_ty(),
            final(self).spec_name() == old(self).spec_name(),
    {
        let ghost n = objs@.len();
        let mut pending: Vec<T> = Vec::new();
        while objs.len() > 0
            invariant
                objs@.len() + pending@.len() == n,
            decreases objs@.len(),
        {
            match objs.pop() {
                Some(o) => pending.push(o),
                None => {},
            }
        }
        let ghost ty = self.spec_ty();
        let ghost name = self.spec_name();
        while pending.len() > 0
            invariant
                objs@.len() + pending@.len() == n,
                self.spec_ty() == ty,
                self.spec_name() == name,
            decreases pending@.len(),
        {
            match pending.pop() {
                Some(mut o) => {
                    self.obj(&mut o);
                    objs.push(o);
                },
                None => {},
            }
        }
    }

    /// Reports the reasons in turn against the current type and object name.
    fn push_reasons(&mut self, reasons: Vec<Reason>, field: Option<&'static str>)
        ensures
            final(self).spec_tally() == tally_push_all(
                old(self).spec_tally(),
                old(self).spec_limit(),
                problems_for(
                    reasons_view(reasons@),
                    old(self).spec_ty(),
                    opt_static(field),
                    old(self).spec_name(),
                ),
            ),
            final(self).same_settings(&*old(self)),
    {
        let ghost ps = problems_for(
            reasons_view(reasons@),
            self.spec_ty(),
            opt_static(field),
            self.spec_name(),
        );
        let ghost t0 = self.spec_tally();
        let ghost v0 = *self;
        let total = reasons.len();
        let mut rs = reasons;
        let mut pending: Vec<Reason> = Vec::new();
        let ghost n = rs@.len();
        while rs.len() > 0
            invariant
                rs@ + pending@.reverse() == reasons@,
            decreases rs@.len(),
        {
            let ghost before_rs = rs@;
            let ghost before_p = pending@;
            match rs.pop() {
                Some(r) => {
                    pending.push(r);
                    assert(rs@ + pending@.reverse() =~= before_rs.drop_last() + (before_p.push(
                        r,
                    )).reverse());
                    assert(before_p.push(r).reverse() =~= seq![r] + before_p.reverse());
                    assert(before_rs =~= before_rs.drop_last().push(r));
                    assert(rs@ + pending@.reverse() =~= before_rs + before_p.reverse());
                },
                None => {},
            }
        }
        assert(pending@.reverse() =~= reasons@);
        let mut i: usize = 0;
        while pending.len() > 0
            invariant
                pending@.reverse() == reasons@.skip(i as int),
                i + pending@.len() == reasons@.len(),
                reasons@.len() == total,
                self.same_settings(&v0),
                self.spec_tally() == tally_push_all(t0, v0.spec_limit(), ps.take(i as int)),
                ps == problems_for(reasons_view(reasons@), v0.spec_ty(), opt_static(field), v0.spec_name()),
            decreases pending@.len(),
        {
            let ghost before_p = pending@;
            match pending.pop() {
                Some(r) => {
                    proof {
                        assert(before_p =~= pending@.push(r));
                        assert(before_p.reverse() =~= seq![r] + pending@.reverse());
                        assert(reasons@.skip(i as int)[0] == r);
                        assert(reasons@[i as int] == r);
                        assert(ps[i as int] == self.problem_here(r@, opt_static(field)));
                        assert(ps.take(i + 1) =~= ps.take(i as int).push(ps[i as int]));
                        lemma_push_all_snoc(t0, v0.spec_limit(), ps.take(i as int), ps[i as int]);
                        assert(reasons@.skip(i + 1) =~= reasons@.skip(i as int).drop_first());
                        assert(reasons@.skip(i + 1) =~= pending@.reverse());
                    }
                    self.push(r, field);
                    i += 1;
                },
                None => {},
            }
        }
        assert(ps.take(i as int) =~= ps);
    }

    /// Attaches `constraint` to an array and reports the array's failed write checks, then a
    /// reference to an archive member that doesn't exist, if the members are known.
    pub fn array<A: ArrayType>(
        &mut self,
        array: &mut Array<A>,
        constraint: Constraint,
        field: &'static str,
    )
        requires
            constraint.spec_data_type() == A::spec_data_type(),
        ensures
            final(array).spec_constraint() == Some(constraint),
            final(array).spec_filename() == old(array).spec_filename(),
            final(array).spec_item_count() == old(array).spec_item_count(),
            final(array).spec_checks() == old(array).spec_checks(),
            final(self).same_settings(&*old(self)),
            final(self).spec_tally() == tally_push_all(
                old(self).spec_tally(),
                old(self).spec_limit(),
                problems_for(
                    reasons_view(check_failures(old(array).spec_checks(), constraint))
                        + match old(self).spec_filenames() {
                        Some(f) if !f.contains(old(array).spec_filename()) => seq![
                            ReasonView::ZipMemberMissing(old(array).spec_filename()),
                        ],
                        _ => Seq::empty(),
                    },
                    old(self).spec_ty(),
                    Some(field@),
                    old(self).spec_name(),
                ),
            ),
    {
        array.constrain(constraint);
        let mut reasons = array.run_write_checks();
        let missing = match &self.filenames {
            Some(names) => {
                let f = array.filename();
                let mut found = false;
                let mut i: usize = 0;
                while i < names.len()
                    invariant
                        i <= names@.len(),
                        found <==> exists|j: int| 0 <= j < i && names@[j]@ == f@,
                    decreases names@.len() - i,
                {
                    if str_equal(names[i].as_str(), f) {
                        found = true;
                    }
                    i += 1;
                }
                proof {
                    let sv = strings_view(names@);
                    if found {
                        let j = choose|j: int| 0 <= j < i && names@[j]@ == f@;
                        assert(sv[j] == f@);
                    } else {
                        assert forall|j: int| 0 <= j < sv.len() implies sv[j] != f@ by {
                            assert(sv[j] == names@[j]@);
                        }
                    }
                }
                !found
            },
            None => false,
        };
        if missing {
            reasons.push(Reason::ZipMemberMissing(String::from_str(array.filename())));
        }
        proof {
            let extra = match old(self).spec_filenames() {
                Some(f) if !f.contains(old(array).spec_filename()) => seq![
                    ReasonView::ZipMemberMissing(old(array).spec_filename()),
                ],
                _ => Seq::<ReasonView>::empty(),
            };
            assert(reasons_view(reasons@) =~= reasons_view(
                check_failures(old(array).spec_checks(), constraint),
            ) + extra);
        }
        self.push_reasons(reasons, Some(field));
    }

    /// Reports a double, given by its bit pattern, that is not finite.
    pub fn finite(&mut self, bits: u64, field: &'static str)
        ensures
            final(self).same_settings(&*old(self)),
            final(self).spec_tally() == if !f64_is_finite(bits) {
                tally_push(
                    old(self).spec_tally(),
                    old(self).spec_limit(),
                    old(self).problem_here(ReasonView::NotFinite, Some(field@)),
                )
            } else {
                old(self).spec_tally()
            },
    {
        if !is_finite_bits(bits) {
            self.push(Reason::NotFinite, Some(field));
        }
    }

    /// Reports, once, doubles given by their bit patterns of which any is not finite.
    pub fn finite_seq(&mut self, values: &[u64], field: &'static str)
        ensures
            final(self).same_settings(&*old(self)),
            final(self).spec_tally() == if exists|i: int|
                0 <= i < values@.len() && !f64_is_finite(values@[i]) {
                tally_push(
                    old(self).spec_tally(),
                    old(self).spec_limit(),
                    old(self).problem_here(ReasonView::NotFinite, Some(field@)),
                )
            } else {
                old(self).spec_tally()
            },
    {
        let mut i: usize = 0;
        while i < values.len()
            invariant
                i <= values@.len(),
                forall|j: int| 0 <= j < i ==> f64_is_finite(values@[j]),
                *self == *old(self),
            decreases values@.len() - i,
        {
            if !is_finite_bits(values[i]) {
                self.push(Reason::NotFinite, Some(field));
                return;
            }
            i += 1;
        }
    }

    /// Reports a double, given by its bit pattern, that is zero or less.
    pub fn above_zero(&mut self, bits: u64, field: &'static str)
        ensures
            final(self).same_settings(&*old(self)),
            final(self).spec_tally() == if f64_le_zero(bits) {
                tally_push(
                    old(self).spec_tally(),
                    old(self).spec_limit(),
                    old(self).problem_here(ReasonView::NotGreaterThanZero, Some(field@)),
                )
            } else {
                old(self).spec_tally()
            },
    {
        if le_zero_bits(bits) {
            self.push(Reason::NotGreaterThanZero, Some(field));
        }
    }

    /// Reports, once, doubles given by their bit patterns of which any is zero or less.
    pub fn above_zero_seq(&mut self, values: &[u64], field: &'static str)
        ensures
            final(self).same_settings(&*old(self)),
            final(self).spec_tally() == if exists|i: int|
                0 <= i < values@.len() && f64_le_zero(values@[i]) {
                tally_push(
                    old(self).spec_tally(),
                    old(self).spec_limit(),
                    old(self).problem_here(ReasonView::NotGreaterThanZero, Some(field@)),
                )
            } else {
                old(self).spec_tally()
            },
    {
        let mut i: usize = 0;
        while i < values.len()
            invariant
                i <= values@.len(),
                forall|j: int| 0 <= j < i ==> !f64_le_zero(values@[j]),
                *self == *old(self),
            decreases values@.len() - i,
        {
            if le_zero_bits(values[i]) {
                self.push(Reason::NotGreaterThanZero, Some(field));
                return;
            }
            i += 1;
        }
    }

    /// Reports, once, counts of which any is zero.
    pub fn above_zero_counts(&mut self, values: &[u32], field: &'static str)
        ensures
            final(self).same_settings(&*old(self)),
            final(self).spec_tally() == if exists|i: int|
                0 <= i < values@.len() && values@[i] == 0 {
                tally_push(
                    old(self).spec_tally(),
                    old(self).spec_limit(),
                    old(self).problem_here(ReasonView::NotGreaterThanZero, Some(field@)),
                )
            } else {
                old(self).spec_tally()
            },
    {
        let mut i: usize = 0;
        while i < values.len()
            invariant
                i <= values@.len(),
                forall|j: int| 0 <= j < i ==> values@[j] != 0,
                *self == *old(self),
            decreases values@.len() - i,
        {
            if values[i] == 0 {
                self.push(Reason::NotGreaterThanZero, Some(field));
                return;
            }
            i += 1;
        }
    }

    /// Reports a number range whose minimum is above its maximum. For floating-point ranges
    /// each limit that is not finite is reported first, and such a range is not compared.
    pub fn min_max(&mut self, range: crate::colormap::NumberRange)
        ensures
            final(self).same_settings(&*old(self)),
            ({
                let t1 = match range {
                    crate::colormap::NumberRange::Float { min_bits, max_bits } => {
                        let t0 = if !f64_is_finite(min_bits) {
                            tally_push(
                                old(self).spec_tally(),
                                old(self).spec_limit(),
                                old(self).problem_here(ReasonView::NotFinite, Some("min"@)),
                            )
                        } else {
                            old(self).spec_tally()
                        };
                        if !f64_is_finite(max_bits) {
                            tally_push(
                                t0,
                                old(self).spec_limit(),
                                old(self).problem_here(ReasonView::NotFinite, Some("max"@)),
                            )
                        } else {
                            t0
                        }
                    },
                    _ => old(self).spec_tally(),
                };
                final(self).spec_tally() == if range_out_of_order(range) {
                    tally_push(
                        t1,
                        old(self).spec_limit(),
                        old(self).problem_here(
                            ReasonView::MinMaxOutOfOrder(range),
                            Some("range"@),
                        ),
                    )
                } else {
                    t1
                }
            }),
    {
        proof {
            reveal_strlit("min");
            reveal_strlit("max");
            reveal_strlit("range");
        }
        let ok = match range {
            crate::colormap::NumberRange::Float { min_bits, max_bits } => {
                self.finite(min_bits, "min");
                self.finite(max_bits, "max");
                !is_finite_bits(min_bits) || !is_finite_bits(max_bits) || le_bits(min_bits, max_bits)
            },
            crate::colormap::NumberRange::Integer { min, max } => min <= max,
            crate::colormap::NumberRange::Date { min, max } => min <= max,
            crate::colormap::NumberRange::DateTime { min, max } => min <= max,
        };
        if !ok {
            self.push(Reason::MinMaxOutOfOrder(range), Some("range"));
        }
    }

    /// Reports a grid whose counts do not all fit in 32 bits.
    pub fn grid_count(&mut self, count: &[u64])
        ensures
            final(self).same_settings(&*old(self)),
            final(self).spec_tally() == if exists|i: int|
                0 <= i < count@.len() && count@[i] > u32::MAX {
                tally_push(
                    old(self).spec_tally(),
                    old(self).spec_limit(),
                    old(self).problem_here(ReasonView::GridTooLarge(count@), None),
                )
            } else {
                old(self).spec_tally()
            },
    {
        let mut i: usize = 0;
        let mut too_large = false;
        while i < count.len()
            invariant
                i <= count@.len(),
                too_large <==> exists|j: int| 0 <= j < i && count@[j] > u32::MAX,
            decreases count@.len() - i,
        {
            if count[i] > u32::MAX as u64 {
                too_large = true;
            }
            i += 1;
        }
        if too_large {
            let mut v: Vec<u64> = Vec::new();
            let mut j: usize = 0;
            while j < count.len()
                invariant
                    j <= count@.len(),
                    v@ == count@.take(j as int),
                decreases count@.len() - j,
            {
                v.push(count[j]);
                assert(count@.take(j + 1) =~= count@.take(j as int).push(count@[j as int]));
                j += 1;
            }
            assert(count@.take(j as int) =~= count@);
            self.push(Reason::GridTooLarge(v), None);
        }
    }

    /// Reports octree sub-block counts that are not all powers of two.
    pub fn subblock_mode_and_count(&mut self, mode: Option<SubblockMode>, count: [u32; 3])
        ensures
            final(self).same_settings(&*old(self)),
            final(self).spec_tally() == if mode == Some(SubblockMode::Octree) && !(
            is_power_of_two(count[0]) && is_power_of_two(count[1]) && is_power_of_two(count[2])) {
                tally_push(
                    old(self).spec_tally(),
                    old(self).spec_limit(),
                    old(self).problem_here(ReasonView::OctreeNotPowerOfTwo(count), None),
                )
            } else {
                old(self).spec_tally()
            },
    {
        let octree = match mode {
            Some(SubblockMode::Octree) => true,
            _ => false,
        };
        if octree && !(power_of_two(count[0]) && power_of_two(count[1]) && power_of_two(count[2])) {
            self.push(Reason::OctreeNotPowerOfTwo(count), None);
        }
    }

    /// Reports an array whose length differs from the required length.
    pub fn array_size(&mut self, size: u64, required: u64, field: &'static str)
        ensures
            final(self).same_settings(&*old(self)),
            final(self).spec_tally() == if size != required {
                tally_push(
                    old(self).spec_tally(),
                    old(self).spec_limit(),
                    old(self).problem_here(
                        ReasonView::AttrLengthMismatch(size, required),
                        Some(field@),
                    ),
                )
            } else {
                old(self).spec_tally()
            },
    {
        if size != required {
            self.push(Reason::AttrLengthMismatch(size, required), Some(field));
        }
    }

    /// Reports an optional array whose length differs from the required length.
    pub fn array_size_opt(&mut self, size_opt: Option<u64>, required: u64, field: &'static str)
        ensures
            final(self).same_settings(&*old(self)),
            final(self).spec_tally() == match size_opt {
                Some(size) if size != required => tally_push(
                    old(self).spec_tally(),
                    old(self).spec_limit(),
                    old(self).problem_here(
                        ReasonView::AttrLengthMismatch(size, required),
                        Some(field@),
                    ),
                ),
                _ => old(self).spec_tally(),
            },
    {
        if let Some(size) = size_opt {
            self.array_size(size, required, field);
        }
    }

    /// Reports each name that occurs more than once, once, at its second occurrence: as an
    /// error if `is_error`, otherwise as a warning.
    pub fn unique(&mut self, names: &Vec<String>, field: &'static str, is_error: bool)
        ensures
            final(self).same_settings(&*old(self)),
            final(self).spec_tally() == tally_push_all(
                old(self).spec_tally(),
                old(self).spec_limit(),
                problems_for(
                    duplicate_reasons(strings_view(names@), is_error),
                    old(self).spec_ty(),
                    Some(field@),
                    old(self).spec_name(),
                ),
            ),
    {
        let ghost sv = strings_view(names@);
        let mut reasons: Vec<Reason> = Vec::new();
        let mut i: usize = 0;
        while i < names.len()
            invariant
                i <= names@.len(),
                sv == strings_view(names@),
                sv.len() == names@.len(),
                reasons_view(reasons@) == duplicate_reasons(sv.take(i as int), is_error),
            decreases names@.len() - i,
        {
            let s = names[i].as_str();
            assert(s@ == sv[i as int]);
            let mut count: usize = 0;
            let mut j: usize = 0;
            while j < i
                invariant
                    j <= i < names@.len(),
                    sv == strings_view(names@),
                    sv.len() == names@.len(),
                    s@ == sv[i as int],
                    count <= j,
                    count == count_of(sv.take(j as int), s@),
                decreases i - j,
            {
                assert(sv[j as int] == names@[j as int]@);
                assert(sv.take(j + 1).drop_last() =~= sv.take(j as int));
                if str_equal(names[j].as_str(), s) {
                    count = count + 1;
                }
                j += 1;
            }
            proof {
                assert(sv.take(i + 1).drop_last() =~= sv.take(i as int));
                assert(sv.take(i + 1).last() == s@);
            }
            if count == 1 {
                let d = debug_str(s);
                let ghost before = reasons@;
                if is_error {
                    reasons.push(Reason::NotUnique(d));
                } else {
                    reasons.push(Reason::SoftNotUnique(d));
                }
                assert(reasons_view(reasons@) =~= reasons_view(before).push(reasons@.last()@));
            }
            i += 1;
        }
        assert(sv.take(i as int) =~= sv);
        self.push_reasons(reasons, Some(field));
    }

    /// Reports attributes attached where their geometry has no such location, attached with
    /// the wrong length, or with a location that their kind of data can't use.
    pub fn attrs_on_geometry(&mut self, attrs: &[AttributeSummary], geometry: &GeometrySummary)
        ensures
            final(self).same_settings(&*old(self)),
            final(self).spec_tally() == tally_push_all(
                old(self).spec_tally(),
                old(self).spec_limit(),
                problems_of(attrs@, |a: AttributeSummary| attr_on_geometry_problem(a, *geometry)),
            ),
    {
        proof {
            reveal_strlit("Attribute");
            reveal_strlit("location");
        }
        let ghost f = |a: AttributeSummary| attr_on_geometry_problem(a, *geometry);
        let ghost t0 = self.spec_tally();
        let ghost v0 = *self;
        let mut i: usize = 0;
        while i < attrs.len()
            invariant
                i <= attrs@.len(),
                self.same_settings(&v0),
                f == (|a: AttributeSummary| attr_on_geometry_problem(a, *geometry)),
                self.spec_tally() == tally_push_all(t0, v0.spec_limit(), problems_of(attrs@.take(i as int), f)),
            decreases attrs@.len() - i,
        {
            let a = &attrs[i];
            let ghost ps = problems_of(attrs@.take(i as int), f);
            proof {
                assert(attrs@.take(i + 1).drop_last() =~= attrs@.take(i as int));
                assert(attrs@.take(i + 1).last() == *a);
            }
            if a.projected_texture != (a.location == Location::Projected) {
                proof {
                    lemma_push_all_snoc(t0, v0.spec_limit(), ps, f(*a)->Some_0);
                }
                self.push_full(
                    Reason::AttrLocationWrongForAttr(a.location, a.kind),
                    "Attribute",
                    Some("location"),
                    Some(a.name.as_str()),
                );
            } else {
                match geometry.location_len(a.location) {
                    Some(n) => {
                        if n != a.len {
                            proof {
                                lemma_push_all_snoc(t0, v0.spec_limit(), ps, f(*a)->Some_0);
                            }
                            self.push_full(
                                Reason::AttrLengthMismatch(a.len, n),
                                "Attribute",
                                None,
                                Some(a.name.as_str()),
                            );
                        }
                    },
                    None => {
                        proof {
                            lemma_push_all_snoc(t0, v0.spec_limit(), ps, f(*a)->Some_0);
                        }
                        self.push_full(
                            Reason::AttrLocationWrongForGeom(a.location, geometry.kind),
                            "Attribute",
                            Some("location"),
                            Some(a.name.as_str()),
                        );
                    },
                }
            }
            i += 1;
        }
        assert(attrs@.take(i as int) =~= attrs@);
    }

    /// Reports sub-attributes of a category attribute that are not attached to the
    /// categories or don't have one value per category.
    pub fn attrs_on_attribute(&mut self, attrs: &[AttributeSummary], n_categories: u64)
        ensures
            final(self).same_settings(&*old(self)),
            final(self).spec_tally() == tally_push_all(
                old(self).spec_tally(),
                old(self).spec_limit(),
                problems_of(attrs@, |a: AttributeSummary| attr_on_attribute_problem(a, n_categories)),
            ),
    {
        proof {
            reveal_strlit("Attribute");
            reveal_strlit("location");
            reveal_strlit("AttributeData::Categories");
        }
        let ghost f = |a: AttributeSummary| attr_on_attribute_problem(a, n_categories);
        let ghost t0 = self.spec_tally();
        let ghost v0 = *self;
        let mut i: usize = 0;
        while i < attrs.len()
            invariant
                i <= attrs@.len(),
                self.same_settings(&v0),
                f == (|a: AttributeSummary| attr_on_attribute_problem(a, n_categories)),
                self.spec_tally() == tally_push_all(t0, v0.spec_limit(), problems_of(attrs@.take(i as int), f)),
            decreases attrs@.len() - i,
        {
            let a = &attrs[i];
            let ghost ps = problems_of(attrs@.take(i as int), f);
            proof {
                assert(attrs@.take(i + 1).drop_last() =~= attrs@.take(i as int));
                assert(attrs@.take(i + 1).last() == *a);
            }
            if a.location != Location::Categories {
                proof {
                    lemma_push_all_snoc(t0, v0.spec_limit(), ps, f(*a)->Some_0);
                }
                self.push_full(
                    Reason::AttrLocationWrongForGeom(a.location, "AttributeData::Categories"),
                    "Attribute",
                    Some("location"),
                    Some(a.name.as_str()),
                );
            } else if a.len != n_categories {
                proof {
                    lemma_push_all_snoc(t0, v0.spec_limit(), ps, f(*a)->Some_0);
                }
                self.push_full(
                    Reason::AttrLengthMismatch(a.len, n_categories),
                    "Attribute",
                    None,
                    Some(a.name.as_str()),
                );
            }
            i += 1;
        }
        assert(attrs@.take(i as int) =~= attrs@);
    }
}

/// Returns true if `n` is a power of two.
pub fn power_of_two(n: u32) -> (r: bool)
    ensures
        r == is_power_of_two(n),
{
    let mut p: u64 = 1;
    let mut k: u32 = 0;
    proof {
        vstd::arithmetic::power2::lemma2_to64();
    }
    while k < 32
        invariant
            k <= 32,
            p == pow2(k as nat),
            p <= 0x1_0000_0000,
            forall|j: nat| j < k ==> n != pow2(j),
        decreases 32 - k,
    {
        if n as u64 == p {
            assert(k < 32 && n == pow2(k as nat));
            return true;
        }
        proof {
            vstd::arithmetic::power2::lemma_pow2_unfold((k + 1) as nat);
            vstd::arithmetic::power2::lemma2_to64();
            if k < 31 {
                vstd::arithmetic::power2::lemma_pow2_strictly_increases((k + 1) as nat, 32);
            }
        }
        p = p * 2;
        k += 1;
    }
    false
}


/// The number of errors among problems.
pub open spec fn error_count(ps: Seq<ProblemView>) -> nat
    decreases ps.len(),
{
    if ps.len() == 0 {
        0
    } else {
        error_count(ps.drop_last()) + if ps.last().reason.is_error() {
            1nat
        } else {
            0nat
        }
    }
}

/// No problem is lost: each one reported is either kept, after those kept before, or counted
/// as a discarded error or warning of the same severity (while the counts fit in 32 bits).
pub proof fn lemma_no_problem_lost(t: Tally, limit: Option<usize>, ps: Seq<ProblemView>)
    requires
        t.extra_errors + ps.len() <= u32::MAX,
        t.extra_warnings + ps.len() <= u32::MAX,
    ensures
        ({
            let r = tally_push_all(t, limit, ps);
            let kept = r.problems.skip(t.problems.len() as int);
            &&& r.problems.take(t.problems.len() as int) == t.problems
            &&& r.problems.len() >= t.problems.len()
            &&& r.extra_errors >= t.extra_errors
            &&& r.extra_warnings >= t.extra_warnings
            &&& error_count(kept) + (r.extra_errors - t.extra_errors) == error_count(ps)
            &&& kept.len() + (r.extra_errors - t.extra_errors) + (r.extra_warnings
                - t.extra_warnings) == ps.len()
        }),
    decreases ps.len(),
{
    let r = tally_push_all(t, limit, ps);
    if ps.len() == 0 {
        assert(r.problems.take(t.problems.len() as int) =~= t.problems);
        assert(r.problems.skip(t.problems.len() as int) =~= Seq::<ProblemView>::empty());
    } else {
        let q = tally_push_all(t, limit, ps.drop_last());
        lemma_no_problem_lost(t, limit, ps.drop_last());
        let p = ps.last();
        let qk = q.problems.skip(t.problems.len() as int);
        let n = t.problems.len() as int;
        assert(error_count(ps) == error_count(ps.drop_last()) + if p.reason.is_error() {
            1nat
        } else {
            0nat
        });
        let discard = match limit {
            Some(l) => q.problems.len() >= l,
            None => false,
        };
        if discard {
            assert(r.problems == q.problems);
            assert(q.extra_errors < u32::MAX);
            assert(q.extra_warnings < u32::MAX);
        } else {
            assert(r.problems == q.problems.push(p));
            assert(r.problems.take(n) =~= q.problems.take(n));
            assert(r.problems.skip(n) =~= qk.push(p));
            assert(qk.push(p).drop_last() =~= qk);
            assert(error_count(qk.push(p)) == error_count(qk) + if p.reason.is_error() {
                1nat
            } else {
                0nat
            });
        }
    }
}

/// A limit holds: pushing problems never keeps more than the limit, beyond those already
/// kept.
pub proof fn lemma_limit_respected(t: Tally, l: usize, ps: Seq<ProblemView>)
    ensures
        tally_push_all(t, Some(l), ps).problems.len() <= if t.problems.len() > l {
            t.problems.len()
        } else {
            l as nat
        },
    decreases ps.len(),
{
    if ps.len() > 0 {
        lemma_limit_respected(t, l, ps.drop_last());
    }
}

/// Without a limit every problem is kept, in order.
pub proof fn lemma_no_limit_keeps_all(t: Tally, ps: Seq<ProblemView>)
    ensures
        tally_push_all(t, None, ps) == (Tally { problems: t.problems + ps, ..t }),
    decreases ps.len(),
{
    if ps.len() == 0 {
        assert(t.problems + ps =~= t.problems);
    } else {
        lemma_no_limit_keeps_all(t, ps.drop_last());
        assert(t.problems + ps =~= (t.problems + ps.drop_last()).push(ps.last()));
    }
}

} // verus!
