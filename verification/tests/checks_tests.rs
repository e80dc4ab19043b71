use omf::array::{Array, Constraint};
use omf::array_type;
use omf::block_model::SubblockMode;
use omf::boundary::Boundary;
use omf::error::{Error, InvalidData};
use omf::problem::Reason;
use omf::read_checks::{
    BoundaryOrder,
    check_freeform_corners, check_index, check_parent, check_primitive, check_regular_corners,
    check_size,
};
use omf::write_checks::{
    valid_subblock_sizes, ArrayWriteCheck, F64Bits, FreeformCorners, IncreasingBoundary, MaximumIndex,
    MinimumScalar, ParentIndices, RegularCorners,
};

fn bits(v: [f64; 6]) -> [u64; 6] {
    v.map(f64::to_bits)
}

#[test]
fn maximum_index() {
    let mut m = MaximumIndex::new();
    assert_eq!(m.visit(3), 3);
    assert_eq!(m.visit_opt(None), None);
    assert_eq!(m.visit_opt(Some(7)), Some(7));
    assert_eq!(m.visit_array([1, 9, 2]), [1, 9, 2]);
    assert_eq!(m.visit(4), 4);
    assert_eq!(m.get(), vec![ArrayWriteCheck::MaximumIndex(9)]);
}

#[test]
fn increasing_boundary() {
    let mut b = IncreasingBoundary::<i64>::new();
    for v in [1, 2, 2, 5] {
        b.visit(v);
    }
    assert!(b.get().is_empty());
    let mut b = IncreasingBoundary::<i64>::new();
    for v in [1, 3, 2, 5] {
        b.visit(v);
    }
    assert_eq!(b.get(), vec![ArrayWriteCheck::Invalid(InvalidData::BoundaryDecreases)]);
}

#[test]
fn minimum_scalar() {
    let mut m = MinimumScalar::new();
    m.visit(2.5f64.to_bits());
    m.visit(f64::NAN.to_bits());
    m.visit(1.5f64.to_bits());
    m.visit(3.0f64.to_bits());
    assert_eq!(
        m.get(),
        vec![ArrayWriteCheck::MinimumScalar { value_bits: 1.5f64.to_bits(), positive: true }]
    );
    let mut m = MinimumScalar::new();
    m.visit((-1.0f64).to_bits());
    assert_eq!(
        m.get(),
        vec![ArrayWriteCheck::MinimumScalar { value_bits: (-1.0f64).to_bits(), positive: false }]
    );
    assert_eq!(
        MinimumScalar::new().get(),
        vec![ArrayWriteCheck::MinimumScalar { value_bits: f64::INFINITY.to_bits(), positive: true }]
    );
}

#[test]
fn freeform_corners_written() {
    let mut f = FreeformCorners::new();
    f.visit(bits([0.0, 0.0, 0.0, 1.0, 1.0, 1.0]));
    assert!(FreeformCorners::new().get().is_empty());
    f.visit(bits([0.5, 0.0, 0.0, 0.5, 1.0, 1.0]));
    f.visit(bits([-0.5, 0.0, 0.0, 0.5, 1.0, 1.0]));
    assert_eq!(
        f.get(),
        vec![ArrayWriteCheck::Invalid(InvalidData::FreeformSubblockZeroSize {
            corner_bits: bits([0.5, 0.0, 0.0, 0.5, 1.0, 1.0])
        })]
    );
    let mut f = FreeformCorners::new();
    f.visit(bits([0.0, 0.0, 0.0, 1.0, 1.5, 1.0]));
    assert_eq!(
        f.get(),
        vec![ArrayWriteCheck::Invalid(InvalidData::FreeformSubblockOutsideParent {
            corner_bits: bits([0.0, 0.0, 0.0, 1.0, 1.5, 1.0])
        })]
    );
}

#[test]
fn freeform_corners_read() {
    assert!(check_freeform_corners(bits([0.0, 0.25, 0.0, 1.0, 0.5, 1.0])).is_ok());
    assert!(matches!(
        check_freeform_corners(bits([0.5, 0.0, 0.0, 0.5, 1.0, 1.0])),
        Err(Error::InvalidData(InvalidData::FreeformSubblockZeroSize { .. }))
    ));
    assert!(matches!(
        check_freeform_corners(bits([0.9, 0.0, 0.0, 0.5, 1.5, 1.0])),
        Err(Error::InvalidData(InvalidData::FreeformSubblockZeroSize { .. }))
    ));
    assert!(matches!(
        check_freeform_corners(bits([0.9, 0.0, -0.1, 0.95, 1.0, 1.0])),
        Err(Error::InvalidData(InvalidData::FreeformSubblockOutsideParent { .. }))
    ));
    assert!(check_freeform_corners(bits([f64::NAN, 0.0, 0.0, 1.0, 1.0, 1.0])).is_ok());
}

#[test]
fn parent_indices() {
    let mut p = ParentIndices::new();
    p.visit([1, 5, 2]);
    p.visit([4, 0, 2]);
    p.visit([0, 0, 3]);
    assert_eq!(p.get(), vec![ArrayWriteCheck::Subblocks([[4, 0, 2], [1, 5, 2], [0, 0, 3]])]);
}

#[test]
fn regular_corners() {
    let mut r = RegularCorners::new();
    r.visit([0, 0, 0, 2, 2, 2]);
    r.visit([0, 0, 0, 2, 2, 2]);
    r.visit([2, 0, 0, 4, 1, 1]);
    let checks = r.get();
    assert_eq!(checks.len(), 2);
    assert_eq!(
        checks[0],
        ArrayWriteCheck::RegularSubblocksMaximum([[2, 0, 0, 4, 1, 1], [0, 0, 0, 2, 2, 2], [0, 0, 0, 2, 2, 2]])
    );
    assert_eq!(
        checks[1],
        ArrayWriteCheck::RegularSubblockCorners(vec![[0, 0, 0, 2, 2, 2], [2, 0, 0, 4, 1, 1]])
    );
    let mut r = RegularCorners::new();
    r.visit([1, 0, 0, 1, 1, 1]);
    assert_eq!(
        r.get()[2],
        ArrayWriteCheck::Invalid(InvalidData::RegularSubblockZeroSize { corners: [1, 0, 0, 1, 1, 1] })
    );
}

#[test]
fn subblock_sizes() {
    let mut sizes = valid_subblock_sizes(SubblockMode::Octree, [8, 4, 1]);
    sizes.sort();
    assert_eq!(sizes, vec![[1, 1, 1], [2, 1, 1], [4, 2, 1], [8, 4, 1]]);
    let mut sizes = valid_subblock_sizes(SubblockMode::Full, [5, 3, 2]);
    sizes.sort();
    assert_eq!(sizes, vec![[1, 1, 1], [5, 3, 2]]);
}

#[test]
fn read_back_checks() {
    assert!(check_parent([2, 3, 4], [1, 2, 3]).is_ok());
    assert!(matches!(
        check_parent([2, 3, 4], [1, 3, 3]),
        Err(Error::InvalidData(InvalidData::BlockIndexOutOfRange { .. }))
    ));
    assert!(check_size(1.0f64.to_bits()).is_ok());
    assert!(check_size(f64::NAN.to_bits()).is_ok());
    assert!(matches!(
        check_size((-0.0f64).to_bits()),
        Err(Error::InvalidData(InvalidData::SizeZeroOrLess { .. }))
    ));
    assert!(check_index(4, 5).is_ok());
    assert!(matches!(
        check_index(5, 5),
        Err(Error::InvalidData(InvalidData::IndexOutOfRange { value: 5, maximum: 6 }))
    ));
    assert!(check_primitive([0, 1, 2], 3).is_ok());
    assert!(matches!(
        check_primitive([0, 7, 9], 3),
        Err(Error::InvalidData(InvalidData::IndexOutOfRange { value: 7, maximum: 4 }))
    ));
    let sizes = Some((SubblockMode::Octree, valid_subblock_sizes(SubblockMode::Octree, [4, 4, 4])));
    assert!(check_regular_corners([4, 4, 4], &sizes, [0, 0, 0, 2, 2, 2]).is_ok());
    assert!(matches!(
        check_regular_corners([4, 4, 4], &sizes, [1, 0, 0, 3, 2, 2]),
        Err(Error::InvalidData(InvalidData::RegularSubblockNotInMode { .. }))
    ));
    assert!(matches!(
        check_regular_corners([4, 4, 4], &None, [0, 0, 0, 5, 2, 2]),
        Err(Error::InvalidData(InvalidData::RegularSubblockOutsideParent { .. }))
    ));
    assert!(matches!(
        check_regular_corners([4, 4, 4], &None, [2, 0, 0, 2, 2, 2]),
        Err(Error::InvalidData(InvalidData::RegularSubblockZeroSize { .. }))
    ));
}

#[test]
fn write_checks_against_constraints() {
    let mut a = Array::<array_type::Segment>::new("1.parquet".to_owned(), 4)
        .add_write_checks(MaximumIndex::new().get());
    a.constrain(Constraint::Segment(1));
    assert!(a.run_write_checks().is_empty());
    let mut b = Array::<array_type::Segment>::new("1.parquet".to_owned(), 4)
        .add_write_checks(vec![ArrayWriteCheck::MaximumIndex(9)]);
    b.constrain(Constraint::Segment(5));
    assert_eq!(
        b.run_write_checks(),
        vec![Reason::InvalidData(InvalidData::IndexOutOfRange { value: 9, maximum: 4 })]
    );
    let mut s = Array::<array_type::Scalar>::new("2.parquet".to_owned(), 4)
        .add_write_checks(vec![ArrayWriteCheck::MinimumScalar { value_bits: 0, positive: false }]);
    s.constrain(Constraint::Scalar);
    assert!(s.run_write_checks().is_empty());
    s.constrain(Constraint::Size);
    assert_eq!(
        s.run_write_checks(),
        vec![Reason::InvalidData(InvalidData::SizeZeroOrLess { value_bits: 0 })]
    );
    assert_eq!(s.filename(), "2.parquet");
    assert_eq!(s.item_count(), 4);
    assert!(matches!(s.constraint(), Constraint::Size));
}

#[test]
fn boundaries() {
    let b = Boundary::from_value(5i64, true);
    assert_eq!(b, Boundary::LessEqual(5));
    assert_eq!(b.value(), 5);
    assert!(b.is_inclusive());
    let c = Boundary::from_value(2i64, false);
    assert!(!c.is_inclusive());
    assert_eq!(c.map(|x| x * 10), Boundary::Less(20));
    assert_eq!(Boundary::<i64>::from(Boundary::LessEqual(7i64)), Boundary::LessEqual(7));
}

#[test]
fn increasing_float_boundary() {
    let mut b = IncreasingBoundary::<F64Bits>::new();
    for v in [-1.5, 0.0, 0.0, 2.25] {
        b.visit(F64Bits(f64::to_bits(v)));
    }
    assert!(b.get().is_empty());
    let mut b = IncreasingBoundary::<F64Bits>::new();
    for v in [1.0, f64::NAN, 0.5] {
        b.visit(F64Bits(f64::to_bits(v)));
    }
    assert!(b.get().is_empty());
    let mut b = IncreasingBoundary::<F64Bits>::new();
    for v in [1.0, 0.5] {
        b.visit(F64Bits(f64::to_bits(v)));
    }
    assert_eq!(b.get(), vec![ArrayWriteCheck::Invalid(InvalidData::BoundaryDecreases)]);
}

#[test]
fn write_and_read_checks_agree() {
    let constraint = Constraint::RegularSubblock {
        block_count: [2, 3, 4],
        subblock_count: [4, 4, 4],
        mode: Some(SubblockMode::Octree),
    };
    for parents in [vec![[1, 2, 3], [0, 0, 0]], vec![[1, 2, 3], [0, 3, 0]], vec![[2, 0, 0]]] {
        let mut p = ParentIndices::new();
        for parent in &parents {
            p.visit(*parent);
        }
        let mut a = Array::<array_type::RegularSubblock>::new("3.parquet".to_owned(), 1)
            .add_write_checks(p.get());
        a.constrain(constraint.clone());
        let read_ok = parents.iter().all(|x| check_parent([2, 3, 4], *x).is_ok());
        assert_eq!(a.run_write_checks().is_empty(), read_ok);
    }
    for indices in [vec![0u32, 4, 2], vec![0u32, 5, 2], vec![]] {
        let mut m = MaximumIndex::new();
        for i in &indices {
            m.visit(*i);
        }
        let mut a = Array::<array_type::Index>::new("4.parquet".to_owned(), 1).add_write_checks(m.get());
        a.constrain(Constraint::Index(5));
        let read_ok = indices.iter().all(|i| check_index(*i, 5).is_ok());
        assert_eq!(a.run_write_checks().is_empty(), read_ok);
    }
    let sizes = Some((SubblockMode::Octree, valid_subblock_sizes(SubblockMode::Octree, [4, 4, 4])));
    for all in [
        vec![[0, 0, 0, 2, 2, 2], [2, 2, 2, 4, 4, 4], [0, 0, 0, 2, 2, 2]],
        vec![[0, 0, 0, 2, 2, 2], [1, 0, 0, 3, 2, 2]],
        vec![[0, 0, 0, 4, 4, 5]],
    ] {
        let mut r = RegularCorners::new();
        for c in &all {
            r.visit(*c);
        }
        let mut a = Array::<array_type::RegularSubblock>::new("5.parquet".to_owned(), 1)
            .add_write_checks(r.get());
        a.constrain(constraint.clone());
        let read_ok = all.iter().all(|c| check_regular_corners([4, 4, 4], &sizes, *c).is_ok());
        assert_eq!(a.run_write_checks().is_empty(), read_ok);
    }
}

#[test]
fn boundary_order_on_read() {
    let mut b = BoundaryOrder::<i64>::new();
    assert!(b.check(1).is_ok());
    assert!(b.check(1).is_ok());
    assert_eq!(b.check(0), Err(InvalidData::BoundaryDecreases));
    assert!(b.check(1).is_ok());
    assert!(b.check(5).is_ok());
    assert_eq!(b.check(4), Err(InvalidData::BoundaryDecreases));
}

#[test]
fn subblock_sizes_distinct() {
    assert_eq!(valid_subblock_sizes(SubblockMode::Full, [1, 1, 1]), vec![[1, 1, 1]]);
    assert_eq!(valid_subblock_sizes(SubblockMode::Octree, [1, 1, 1]), vec![[1, 1, 1]]);
    let sizes = valid_subblock_sizes(SubblockMode::Octree, [u32::MAX, 0, 1]);
    assert_eq!(sizes.len(), 32);
    assert_eq!(sizes[1], [u32::MAX / 2, 1, 1]);
}

#[test]
fn minimum_scalar_check_from_bits() {
    assert_eq!(
        ArrayWriteCheck::minimum_scalar(0),
        ArrayWriteCheck::MinimumScalar { value_bits: 0, positive: false }
    );
    assert_eq!(
        ArrayWriteCheck::minimum_scalar(2.5f64.to_bits()),
        ArrayWriteCheck::MinimumScalar { value_bits: 2.5f64.to_bits(), positive: true }
    );
}
