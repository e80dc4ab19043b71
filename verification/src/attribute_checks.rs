//! Validation of attribute data: which constraint each array of an attribute gets, and the
//! size rule between a category attribute's names and colors.

use vstd::prelude::*;

use crate::array::{Array, ArrayType, Constraint};
use crate::array_type;
use crate::problem::{ProblemView, ReasonView};
use crate::validator::{
    lemma_push_all_append, problems_for, reasons_view, tally_push_all, Validator,
};
use crate::write_checks::check_failures;

verus! {

/// The problems that [`Validator::array`] reports for `array` checked against `constraint`:
/// its failed write checks, then a missing archive member if the members are known.
pub open spec fn array_problems<A: ArrayType>(
    array: Array<A>,
    constraint: Constraint,
    filenames: Option<Seq<Seq<char>>>,
    ty: Seq<char>,
    field: Seq<char>,
    name: Option<Seq<char>>,
) -> Seq<ProblemView> {
    problems_for(
        reasons_view(check_failures(array.spec_checks(), constraint)) + match filenames {
            Some(f) if !f.contains(array.spec_filename()) => seq![
                ReasonView::ZipMemberMissing(array.spec_filename()),
            ],
            _ => Seq::empty(),
        },
        ty,
        Some(field),
        name,
    )
}

/// True if `after` is `before` with `constraint` attached.
pub open spec fn constrained<A: ArrayType>(before: Array<A>, after: Array<A>, constraint: Constraint) -> bool {
    &&& after.spec_constraint() == Some(constraint)
    &&& after.spec_filename() == before.spec_filename()
    &&& after.spec_item_count() == before.spec_item_count()
    &&& after.spec_checks() == before.spec_checks()
}

/// True if `after` reports against type `ty` and otherwise keeps the settings of `before`.
pub open spec fn entered(before: Validator, after: Validator, ty: Seq<char>) -> bool {
    &&& after.spec_ty() == ty
    &&& after.spec_name() == before.spec_name()
    &&& after.spec_limit() == before.spec_limit()
    &&& after.spec_filenames() == before.spec_filenames()
}

/// Reports against type `ty` and checks the array of values against `constraint`.
fn values_array<A: ArrayType>(
    val: &mut Validator,
    ty: &'static str,
    values: &mut Array<A>,
    constraint: Constraint,
)
    requires
        constraint.spec_data_type() == A::spec_data_type(),
    ensures
        entered(*old(val), *final(val), ty@),
        constrained(*old(values), *final(values), constraint),
        final(val).spec_tally() == tally_push_all(
            old(val).spec_tally(),
            old(val).spec_limit(),
            array_problems(
                *old(values),
                constraint,
                old(val).spec_filenames(),
                ty@,
                "values"@,
                old(val).spec_name(),
            ),
        ),
{
    val.enter(ty);
    val.array(values, constraint, "values");
}

/// Validates the values of a number attribute: they must be numbers. The colormap, if any,
/// is validated after this.
pub fn validate_number(val: &mut Validator, values: &mut Array<array_type::Number>)
    ensures
        entered(*old(val), *final(val), "AttributeData::Number"@),
        constrained(*old(values), *final(values), Constraint::Number),
        final(val).spec_tally() == tally_push_all(
            old(val).spec_tally(),
            old(val).spec_limit(),
            array_problems(
                *old(values),
                Constraint::Number,
                old(val).spec_filenames(),
                "AttributeData::Number"@,
                "values"@,
                old(val).spec_name(),
            ),
        ),
{
    values_array(val, "AttributeData::Number", values, Constraint::Number);
}

/// Validates the values of a vector attribute: they must be vectors.
pub fn validate_vector(val: &mut Validator, values: &mut Array<array_type::Vector>)
    ensures
        entered(*old(val), *final(val), "AttributeData::Vector"@),
        constrained(*old(values), *final(values), Constraint::Vector),
        final(val).spec_tally() == tally_push_all(
            old(val).spec_tally(),
            old(val).spec_limit(),
            array_problems(
                *old(values),
                Constraint::Vector,
                old(val).spec_filenames(),
                "AttributeData::Vector"@,
                "values"@,
                old(val).spec_name(),
            ),
        ),
{
    values_array(val, "AttributeData::Vector", values, Constraint::Vector);
}

/// Validates the values of a text attribute: they must be strings.
pub fn validate_text(val: &mut Validator, values: &mut Array<array_type::Text>)
    ensures
        entered(*old(val), *final(val), "AttributeData::String"@),
        constrained(*old(values), *final(values), Constraint::String),
        final(val).spec_tally() == tally_push_all(
            old(val).spec_tally(),
            old(val).spec_limit(),
            array_problems(
                *old(values),
                Constraint::String,
                old(val).spec_filenames(),
                "AttributeData::String"@,
                "values"@,
                old(val).spec_name(),
            ),
        ),
{
    values_array(val, "AttributeData::String", values, Constraint::String);
}

/// Validates the values of a boolean attribute: they must be booleans.
pub fn validate_boolean(val: &mut Validator, values: &mut Array<array_type::Boolean>)
    ensures
        entered(*old(val), *final(val), "AttributeData::Boolean"@),
        constrained(*old(values), *final(values), Constraint::Boolean),
        final(val).spec_tally() == tally_push_all(
            old(val).spec_tally(),
            old(val).spec_limit(),
            array_problems(
                *old(values),
                Constraint::Boolean,
                old(val).spec_filenames(),
                "AttributeData::Boolean"@,
                "values"@,
                old(val).spec_name(),
            ),
        ),
{
    values_array(val, "AttributeData::Boolean", values, Constraint::Boolean);
}

/// Validates the values of a color attribute: they must be colors.
pub fn validate_color(val: &mut Validator, values: &mut Array<array_type::Color>)
    ensures
        entered(*old(val), *final(val), "AttributeData::Color"@),
        constrained(*old(values), *final(values), Constraint::Color),
        final(val).spec_tally() == tally_push_all(
            old(val).spec_tally(),
            old(val).spec_limit(),
            array_problems(
                *old(values),
                Constraint::Color,
                old(val).spec_filenames(),
                "AttributeData::Color"@,
                "values"@,
                old(val).spec_name(),
            ),
        ),
{
    values_array(val, "AttributeData::Color", values, Constraint::Color);
}

/// Validates a mapped texture: the texture coordinates, then the image.
pub fn validate_mapped_texture(
    val: &mut Validator,
    texcoords: &mut Array<array_type::Texcoord>,
    image: &mut Array<array_type::Image>,
)
    ensures
        entered(*old(val), *final(val), "AttributeData::MappedTexture"@),
        constrained(*old(texcoords), *final(texcoords), Constraint::Texcoord),
        constrained(*old(image), *final(image), Constraint::Image),
        final(val).spec_tally() == tally_push_all(
            old(val).spec_tally(),
            old(val).spec_limit(),
            array_problems(
                *old(texcoords),
                Constraint::Texcoord,
                old(val).spec_filenames(),
                "AttributeData::MappedTexture"@,
                "texcoords"@,
                old(val).spec_name(),
            ) + array_problems(
                *old(image),
                Constraint::Image,
                old(val).spec_filenames(),
                "AttributeData::MappedTexture"@,
                "image"@,
                old(val).spec_name(),
            ),
        ),
{
    let ghost t0 = val.spec_tally();
    val.enter("AttributeData::MappedTexture");
    let ghost v1 = *val;
    val.array(texcoords, Constraint::Texcoord, "texcoords");
    val.array(image, Constraint::Image, "image");
    proof {
        lemma_push_all_append(
            t0,
            v1.spec_limit(),
            array_problems(
                *old(texcoords),
                Constraint::Texcoord,
                v1.spec_filenames(),
                v1.spec_ty(),
                "texcoords"@,
                v1.spec_name(),
            ),
            array_problems(
                *old(image),
                Constraint::Image,
                v1.spec_filenames(),
                v1.spec_ty(),
                "image"@,
                v1.spec_name(),
            ),
        );
    }
}

/// The problem, if any, with the length of a category attribute's colors: there must be
/// one color per name.
pub open spec fn colors_size_problems(
    gradient: Option<Array<array_type::Gradient>>,
    n_names: u64,
    name: Option<Seq<char>>,
) -> Seq<ProblemView> {
    match gradient {
        Some(g) if g.spec_item_count() != n_names => seq![
            ProblemView {
                reason: ReasonView::AttrLengthMismatch(g.spec_item_count(), n_names),
                ty: "AttributeData::Category"@,
                field: Some("colors"@),
                name,
            },
        ],
        _ => Seq::empty(),
    }
}

/// The problems reported while validating the arrays of a category attribute: the values,
/// whose indices must be within range of the names, then the names, then the colors if any,
/// then a colors array whose length differs from the names'.
pub open spec fn category_problems(
    values: Array<array_type::Index>,
    names: Array<array_type::Name>,
    gradient: Option<Array<array_type::Gradient>>,
    filenames: Option<Seq<Seq<char>>>,
    name: Option<Seq<char>>,
) -> Seq<ProblemView> {
    let ty = "AttributeData::Category"@;
    array_problems(
        values,
        Constraint::Index(names.spec_item_count()),
        filenames,
        ty,
        "values"@,
        name,
    ) + array_problems(names, Constraint::Name, filenames, ty, "names"@, name) + (match gradient {
        Some(g) => array_problems(g, Constraint::Gradient, filenames, ty, "colors"@, name),
        None => Seq::empty(),
    }) + colors_size_problems(gradient, names.spec_item_count(), name)
}

/// Validates the arrays of a category attribute. The values are indices into the names, so
/// they are checked against the number of names; the names must be names; the colors, if
/// present, must be colors, with one per name.
///
/// The category's sub-attributes are validated after this, then checked against the number
/// of names with [`Validator::attrs_on_attribute`].
pub fn validate_category(
    val: &mut Validator,
    values: &mut Array<array_type::Index>,
    names: &mut Array<array_type::Name>,
    gradient: &mut Option<Array<array_type::Gradient>>,
)
    ensures
        entered(*old(val), *final(val), "AttributeData::Category"@),
        constrained(*old(values), *final(values), Constraint::Index(old(names).spec_item_count())),
        constrained(*old(names), *final(names), Constraint::Name),
        match (*old(gradient), *final(gradient)) {
            (Some(a), Some(b)) => constrained(a, b, Constraint::Gradient),
            (None, None) => true,
            _ => false,
        },
        final(val).spec_tally() == tally_push_all(
            old(val).spec_tally(),
            old(val).spec_limit(),
            category_problems(
                *old(values),
                *old(names),
                *old(gradient),
                old(val).spec_filenames(),
                old(val).spec_name(),
            ),
        ),
{
    proof {
        reveal_strlit("AttributeData::Category");
    }
    let ghost t0 = val.spec_tally();
    let ghost fnames = val.spec_filenames();
    let ghost nm = val.spec_name();
    let ghost lim = val.spec_limit();
    let ghost ty = "AttributeData::Category"@;
    let n_names = names.item_count();
    val.enter("AttributeData::Category");
    val.array(values, Constraint::Index(n_names), "values");
    let ghost p1 = array_problems(*old(values), Constraint::Index(n_names), fnames, ty, "values"@, nm);
    val.array(names, Constraint::Name, "names");
    let ghost p2 = array_problems(*old(names), Constraint::Name, fnames, ty, "names"@, nm);
    proof {
        lemma_push_all_append(t0, lim, p1, p2);
    }
    let ghost p3 = match *old(gradient) {
        Some(g) => array_problems(g, Constraint::Gradient, fnames, ty, "colors"@, nm),
        None => Seq::<ProblemView>::empty(),
    };
    let gradient_count = match gradient {
        Some(g) => {
            val.array(g, Constraint::Gradient, "colors");
            Some(g.item_count())
        },
        None => None,
    };
    proof {
        if old(gradient).is_none() {
            assert(p1 + p2 + p3 =~= p1 + p2);
        }
        lemma_push_all_append(t0, lim, p1 + p2, p3);
    }
    let ghost p4 = colors_size_problems(*old(gradient), n_names, nm);
    let ghost t3 = val.spec_tally();
    assert(t3 == tally_push_all(t0, lim, p1 + p2 + p3));
    assert(gradient_count == match *old(gradient) {
        Some(g) => Some(g.spec_item_count()),
        None => None,
    });
    val.array_size_opt(gradient_count, n_names, "colors");
    proof {
        assert(tally_push_all(t3, lim, Seq::<ProblemView>::empty()) == t3);
        let pv = ProblemView {
            reason: ReasonView::AttrLengthMismatch(gradient_count->Some_0, n_names),
            ty,
            field: Some("colors"@),
            name: nm,
        };
        if p4.len() > 0 {
            assert(p4 =~= seq![pv]);
            assert(seq![pv].drop_last() =~= Seq::<ProblemView>::empty());
        } else {
            assert(p4 =~= Seq::<ProblemView>::empty());
        }
        lemma_push_all_append(t0, lim, p1 + p2 + p3, p4);
    }
}

} // verus!
