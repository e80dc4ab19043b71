use omf::problem::{Problems, Reason};

#[test]
fn problems_into_result() {
    let mut problems = Problems::default();
    problems.push(
        Reason::SoftNotUnique("x".to_owned()),
        "Test",
        Some("field"),
        None,
    );
    assert_eq!(problems.into_result().unwrap().len(), 1);
}

use omf::array::{Array, Constraint};
use omf::attribute_checks::{validate_category, validate_mapped_texture, validate_number, validate_text};
use omf::error::InvalidData;
use omf::write_checks::ArrayWriteCheck;
use omf::array_type;
use omf::attribute::Location;
use omf::block_model::SubblockMode;
use omf::colormap::NumberRange;
use omf::problem::Problem;
use omf::block_model::{
    block_model_location_len, flat_corner_count2, flat_corner_count3, flat_count2, flat_count3,
    grid_surface_location_len,
};
use omf::geometry::GeometryKind;
use omf::validator::{power_of_two, AttributeSummary, GeometrySummary, Validate, Validator};

fn describe(p: &Problem) -> (Reason, &'static str, Option<&'static str>, Option<String>) {
    (p.reason.clone(), p.ty, p.field, p.name.clone())
}

#[test]
fn validator_basics() {
    let mut v = Validator::new();
    v.enter("Test");
    v.push(Reason::NotFinite, None);
    v.push(Reason::NotFinite, Some("field"));
    v.name("name");
    v.push(Reason::NotFinite, None);
    v.push(Reason::NotFinite, Some("field"));
    let problems: Vec<_> = v.finish().into_vec();
    let got: Vec<_> = problems.iter().map(describe).collect();
    assert_eq!(
        got,
        vec![
            (Reason::NotFinite, "Test", None, None),
            (Reason::NotFinite, "Test", Some("field"), None),
            (Reason::NotFinite, "Test", None, Some("name".to_owned())),
            (Reason::NotFinite, "Test", Some("field"), Some("name".to_owned())),
        ]
    );
}

#[test]
fn validator_limit() {
    let mut v = Validator::new().with_limit(Some(2));
    v.enter("T");
    v.push(Reason::NotFinite, None);
    v.push(Reason::SoftNotUnique("a".to_owned()), None);
    v.push(Reason::NotGreaterThanZero, None);
    v.push(Reason::SoftNotUnique("b".to_owned()), None);
    v.push(Reason::NotFinite, None);
    let problems = v.finish().into_vec();
    let reasons: Vec<_> = problems.into_iter().map(|p| p.reason).collect();
    assert_eq!(
        reasons,
        vec![
            Reason::NotFinite,
            Reason::SoftNotUnique("a".to_owned()),
            Reason::MoreWarnings(1),
            Reason::MoreErrors(2),
        ]
    );
}

#[test]
fn validator_checks() {
    let mut v = Validator::new().with_filenames(vec!["1.parquet".to_owned()]);
    v.enter("Test");
    v.finite(0.0f64.to_bits(), "zero");
    v.finite(f64::INFINITY.to_bits(), "inf");
    v.finite(f64::NAN.to_bits(), "nan");
    v.finite_seq(&[0.0f64.to_bits(), f64::NEG_INFINITY.to_bits(), f64::NAN.to_bits()], "seq");
    v.above_zero_seq(&[1.0f64.to_bits(), 2.0f64.to_bits(), 3.0f64.to_bits()], "normal");
    v.above_zero_seq(&[1.0f64.to_bits(), 0.0f64.to_bits(), (-1.0f64).to_bits()], "seq");
    v.above_zero_seq(&[1.0f64.to_bits(), f64::NAN.to_bits()], "seq_nan");
    v.min_max(NumberRange::Float { min_bits: f64::NAN.to_bits(), max_bits: 100.0f64.to_bits() });
    v.min_max(NumberRange::Float { min_bits: 100.0f64.to_bits(), max_bits: 100.0f64.to_bits() });
    v.min_max(NumberRange::Float { min_bits: 101.5f64.to_bits(), max_bits: 100.0f64.to_bits() });
    let mut fine = Array::<array_type::Text>::new("1.parquet".to_owned(), 10);
    v.array(&mut fine, Constraint::String, "fine");
    let mut missing = Array::<array_type::Text>::new("2.parquet".to_owned(), 10);
    v.array(&mut missing, Constraint::String, "missing");
    v.subblock_mode_and_count(None, [16, 8, 15]);
    v.subblock_mode_and_count(Some(SubblockMode::Full), [16, 8, 5]);
    v.subblock_mode_and_count(Some(SubblockMode::Octree), [16, 8, 5]);
    v.subblock_mode_and_count(Some(SubblockMode::Octree), [16, 8, 4]);
    v.unique(&vec![], "empty", true);
    v.unique(&vec!["1".to_owned()], "single", true);
    v.unique(&["1", "2", "3", "4", "2"].iter().map(|s| s.to_string()).collect(), "dupped", true);
    v.unique(
        &["a", "b", "c", "d", "c", "a", "a"].iter().map(|s| s.to_string()).collect(),
        "multiple",
        false,
    );
    v.grid_count(&[10, 20]);
    v.grid_count(&[10, 1 << 33]);
    v.array_size(5, 5, "same");
    v.array_size(5, 6, "different");
    v.array_size_opt(None, 6, "none");
    let problems = v.finish().into_vec();
    let got: Vec<_> = problems.iter().map(|p| (p.reason.clone(), p.field)).collect();
    assert_eq!(
        got,
        vec![
            (Reason::NotFinite, Some("inf")),
            (Reason::NotFinite, Some("nan")),
            (Reason::NotFinite, Some("seq")),
            (Reason::NotGreaterThanZero, Some("seq")),
            (Reason::NotFinite, Some("min")),
            (
                Reason::MinMaxOutOfOrder(NumberRange::Float {
                    min_bits: 101.5f64.to_bits(),
                    max_bits: 100.0f64.to_bits()
                }),
                Some("range")
            ),
            (Reason::ZipMemberMissing("2.parquet".to_owned()), Some("missing")),
            (Reason::OctreeNotPowerOfTwo([16, 8, 5]), None),
            (Reason::NotUnique("\"2\"".to_owned()), Some("dupped")),
            (Reason::SoftNotUnique("\"c\"".to_owned()), Some("multiple")),
            (Reason::SoftNotUnique("\"a\"".to_owned()), Some("multiple")),
            (Reason::GridTooLarge(vec![10, 1 << 33]), None),
            (Reason::AttrLengthMismatch(5, 6), Some("different")),
        ]
    );
}

#[test]
fn validator_attributes() {
    let attr = |name: &str, location, projected, len| AttributeSummary {
        name: name.to_owned(),
        location,
        projected_texture: projected,
        kind: if projected { "ProjectedTexture" } else { "Number" },
        len,
    };
    let attrs = vec![
        attr("a", Location::Vertices, false, 100),
        attr("b", Location::Primitives, false, 100),
        attr("c", Location::Vertices, false, 101),
        attr("c", Location::Vertices, true, 0),
        attr("d", Location::Projected, true, 0),
    ];
    let geometry = GeometrySummary {
        kind: "PointSet",
        vertices: Some(100),
        primitives: None,
        subblocks: None,
        elements: None,
    };
    let mut v = Validator::new();
    v.enter("Test");
    v.attrs_on_geometry(&attrs, &geometry);
    v.attrs_on_attribute(&[attr("e", Location::Categories, false, 3), attr("f", Location::Vertices, false, 3), attr("g", Location::Categories, false, 4)], 3);
    let problems = v.finish().into_vec();
    let got: Vec<_> = problems.iter().map(describe).collect();
    assert_eq!(
        got,
        vec![
            (Reason::AttrLocationWrongForGeom(Location::Primitives, "PointSet"), "Attribute", Some("location"), Some("b".to_owned())),
            (Reason::AttrLengthMismatch(101, 100), "Attribute", None, Some("c".to_owned())),
            (Reason::AttrLocationWrongForAttr(Location::Vertices, "ProjectedTexture"), "Attribute", Some("location"), Some("c".to_owned())),
            (Reason::AttrLocationWrongForGeom(Location::Vertices, "AttributeData::Categories"), "Attribute", Some("location"), Some("f".to_owned())),
            (Reason::AttrLengthMismatch(4, 3), "Attribute", None, Some("g".to_owned())),
        ]
    );
}

struct Named(&'static str);

impl Validate for Named {
    fn validate_inner(&mut self, val: &mut Validator) {
        val.enter("Named");
        val.name(self.0);
        val.push(Reason::NotFinite, None);
    }
}

#[test]
fn validator_objects_restore_context() {
    let mut v = Validator::new();
    v.enter("Outer");
    let mut objs = vec![Named("x"), Named("y")];
    v.objs(&mut objs);
    v.push(Reason::NotGreaterThanZero, None);
    let got: Vec<_> = v.finish().into_vec().iter().map(describe).collect();
    assert_eq!(
        got,
        vec![
            (Reason::NotFinite, "Named", None, Some("x".to_owned())),
            (Reason::NotFinite, "Named", None, Some("y".to_owned())),
            (Reason::NotGreaterThanZero, "Outer", None, None),
        ]
    );
    assert_eq!(objs.len(), 2);
    assert!(Named("z").validate().is_err());
}

#[test]
fn powers_of_two() {
    for k in 0..32 {
        assert!(power_of_two(1 << k));
    }
    assert!(!power_of_two(0));
    assert!(!power_of_two(3));
    assert!(!power_of_two(u32::MAX));
}

#[test]
fn category_attribute_arrays() {
    let mut v = Validator::new().with_filenames(vec!["1.parquet".to_owned(), "2.parquet".to_owned()]);
    v.name("cats");
    let mut values = Array::<array_type::Index>::new("1.parquet".to_owned(), 4)
        .add_write_checks(vec![ArrayWriteCheck::MaximumIndex(3)]);
    let mut names = Array::<array_type::Name>::new("2.parquet".to_owned(), 3);
    let mut gradient = Some(Array::<array_type::Gradient>::new("3.parquet".to_owned(), 2));
    validate_category(&mut v, &mut values, &mut names, &mut gradient);
    assert_eq!(values.try_constraint(), Some(Constraint::Index(3)));
    assert_eq!(names.try_constraint(), Some(Constraint::Name));
    assert_eq!(gradient.as_ref().unwrap().try_constraint(), Some(Constraint::Gradient));
    let got: Vec<_> = v.finish().into_vec().iter().map(describe).collect();
    let cat = "AttributeData::Category";
    let name = Some("cats".to_owned());
    assert_eq!(
        got,
        vec![
            (
                Reason::InvalidData(InvalidData::IndexOutOfRange { value: 3, maximum: 2 }),
                cat,
                Some("values"),
                name.clone()
            ),
            (Reason::ZipMemberMissing("3.parquet".to_owned()), cat, Some("colors"), name.clone()),
            (Reason::AttrLengthMismatch(2, 3), cat, Some("colors"), name.clone()),
        ]
    );
    let mut v = Validator::new();
    let mut none = None;
    let mut values = Array::<array_type::Index>::new("1.parquet".to_owned(), 4)
        .add_write_checks(vec![ArrayWriteCheck::MaximumIndex(2)]);
    validate_category(&mut v, &mut values, &mut names, &mut none);
    assert!(none.is_none());
    assert!(v.finish().is_empty());
}

#[test]
fn simple_attribute_arrays() {
    let mut v = Validator::new().with_filenames(vec!["a".to_owned()]);
    let mut n = Array::<array_type::Number>::new("a".to_owned(), 1);
    validate_number(&mut v, &mut n);
    assert_eq!(n.try_constraint(), Some(Constraint::Number));
    let mut t = Array::<array_type::Text>::new("b".to_owned(), 1);
    validate_text(&mut v, &mut t);
    assert_eq!(t.try_constraint(), Some(Constraint::String));
    let mut tc = Array::<array_type::Texcoord>::new("a".to_owned(), 1);
    let mut im = Array::<array_type::Image>::new("c".to_owned(), 0);
    validate_mapped_texture(&mut v, &mut tc, &mut im);
    assert_eq!(tc.try_constraint(), Some(Constraint::Texcoord));
    assert_eq!(im.try_constraint(), Some(Constraint::Image));
    let got: Vec<_> = v.finish().into_vec().iter().map(describe).collect();
    assert_eq!(
        got,
        vec![
            (Reason::ZipMemberMissing("b".to_owned()), "AttributeData::String", Some("values"), None),
            (Reason::ZipMemberMissing("c".to_owned()), "AttributeData::MappedTexture", Some("image"), None),
        ]
    );
}

#[test]
fn geometry_kinds() {
    assert_eq!(GeometryKind::PointSet.valid_locations(), vec![Location::Vertices]);
    assert_eq!(
        GeometryKind::SubblockedBlockModel.valid_locations(),
        vec![Location::Vertices, Location::Primitives, Location::Subblocks]
    );
    assert_eq!(GeometryKind::BlockModel.valid_locations(), vec![Location::Vertices, Location::Primitives]);
    assert_eq!(GeometryKind::Composite.name(), "Composite");
    assert_eq!(GeometryKind::SubblockedBlockModel.name(), "BlockModel(sub-blocked)");
}

#[test]
fn block_model_counts() {
    assert_eq!(flat_count3([2, 3, 4]), Some(24));
    assert_eq!(flat_corner_count3([2, 3, 4]), Some(60));
    assert_eq!(flat_corner_count3([u32::MAX, u32::MAX, 1]), None);
    assert_eq!(flat_count2([u32::MAX, u32::MAX]), 18446744065119617025);
    assert_eq!(flat_corner_count2([u32::MAX, u32::MAX]), None);
    assert_eq!(block_model_location_len([2, 2, 2], None, Location::Vertices), Some(27));
    assert_eq!(block_model_location_len([2, 2, 2], None, Location::Primitives), Some(8));
    assert_eq!(block_model_location_len([2, 2, 2], None, Location::Subblocks), None);
    assert_eq!(block_model_location_len([2, 2, 2], Some(11), Location::Subblocks), Some(11));
    assert_eq!(block_model_location_len([2, 2, 2], Some(11), Location::Elements), None);
    assert_eq!(grid_surface_location_len([2, 2], Location::Vertices), Some(9));
    assert_eq!(grid_surface_location_len([2, 2], Location::Primitives), Some(4));
}
