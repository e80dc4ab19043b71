//! Checks applied to each item as array data is read back.

use vstd::prelude::*;

use crate::block_model::SubblockMode;
use crate::error::{Error, InvalidData};
use crate::float_bits::{f64_is_nan, f64_le_zero, f64_lt, f64_one, f64_zero, is_nan_bits, le_zero_bits, lt_bits};
use crate::array::Constraint;
use crate::write_checks::{
    contains_size, corners_maximum, distinct_corners, first_outside_mode, fold_max, max_u32,
    parents_maximum, spec_check, spec_in_mode, ArrayWriteCheck, NumberType, corners_outside,
    corners_sound, corners_zero_size, freeform_write_failure,
    corner_size, positive_size, spec_octree_compat, spec_valid_size, subblock_is_octree_compat,
};

verus! {

/// The outcome of checking a parent block index against the block count.
pub open spec fn spec_check_parent(block_count: [u32; 3], parent: [u32; 3]) -> Result<(), Error> {
    if parent[0] >= block_count[0] || parent[1] >= block_count[1] || parent[2] >= block_count[2] {
        Err(Error::InvalidData(InvalidData::BlockIndexOutOfRange { value: parent, maximum: block_count }))
    } else {
        Ok(())
    }
}

/// Checks that a sub-block's parent index is inside the block model grid.
pub fn check_parent(block_count: [u32; 3], parent: [u32; 3]) -> (r: Result<(), Error>)
    ensures
        r == spec_check_parent(block_count, parent),
{
    let mut i: usize = 0;
    while i < 3
        invariant
            i <= 3,
            forall|j: int| 0 <= j < i ==> parent[j] < block_count[j],
        decreases 3 - i,
    {
        if parent[i] >= block_count[i] {
            return Err(Error::InvalidData(InvalidData::BlockIndexOutOfRange {
                value: parent,
                maximum: block_count,
            }));
        }
        i += 1;
    }
    Ok(())
}

/// The result of checking one axis of a regular sub-block, if that axis fails.
pub open spec fn axis_failure(subblock_count: [u32; 3], corners: [u32; 6], i: int) -> Option<InvalidData> {
    if corners[i] >= corners[i + 3] {
        Some(InvalidData::RegularSubblockZeroSize { corners })
    } else if corners[i + 3] > subblock_count[i] {
        Some(InvalidData::RegularSubblockOutsideParent { corners, maximum: subblock_count })
    } else {
        None
    }
}

/// The outcome of checking regular sub-block corners: axis by axis for a positive size
/// inside the parent, then against the sub-block mode if there is one.
pub open spec fn spec_check_regular_corners(
    subblock_count: [u32; 3],
    mode: Option<SubblockMode>,
    corners: [u32; 6],
) -> Result<(), Error> {
    if let Some(f) = axis_failure(subblock_count, corners, 0) {
        Err(Error::InvalidData(f))
    } else if let Some(f) = axis_failure(subblock_count, corners, 1) {
        Err(Error::InvalidData(f))
    } else if let Some(f) = axis_failure(subblock_count, corners, 2) {
        Err(Error::InvalidData(f))
    } else {
        match mode {
            Some(m) => if !spec_valid_size(m, subblock_count, corner_size(corners))
                || (m == SubblockMode::Octree && !spec_octree_compat(corners)) {
                Err(Error::InvalidData(InvalidData::RegularSubblockNotInMode { corners, mode: m }))
            } else {
                Ok(())
            },
            None => Ok(()),
        }
    }
}

/// True if regular sub-block corners have a positive size within the sub-block count on
/// axis `j`.
pub open spec fn regular_axis_sound(count: [u32; 3], corners: [u32; 6], j: int) -> bool {
    corners[j] < corners[j + 3] && corners[j + 3] <= count[j]
}

/// What checking regular sub-block corners read back gives: success exactly when every axis
/// has a positive size within the sub-block count, treating the three axes alike, and the
/// sub-block fits the mode if there is one; a zero-size error only when some axis has no
/// size, an outside-the-parent error only when some axis goes past the count, and a mode
/// error only when there is a mode that the sub-block doesn't fit.
pub proof fn lemma_regular_corners_check(count: [u32; 3], mode: Option<SubblockMode>, corners: [u32; 6])
    ensures
        spec_check_regular_corners(count, mode, corners) is Ok <==> {
            &&& forall|j: int| 0 <= j < 3 ==> #[trigger] regular_axis_sound(count, corners, j)
            &&& mode matches Some(m) ==> spec_in_mode(m, count, corners)
        },
        spec_check_regular_corners(count, mode, corners) matches Err(e) ==> {
            ||| e == Error::InvalidData(InvalidData::RegularSubblockZeroSize { corners })
                && exists|j: int| 0 <= j < 3 && #[trigger] corners[j] >= corners[j + 3]
            ||| e == Error::InvalidData(
                InvalidData::RegularSubblockOutsideParent { corners, maximum: count },
            ) && exists|j: int| 0 <= j < 3 && #[trigger] corners[j + 3] > count[j]
            ||| mode matches Some(m) && e == Error::InvalidData(
                InvalidData::RegularSubblockNotInMode { corners, mode: m },
            ) && !spec_in_mode(m, count, corners)
        },
{
    let ok3 = regular_axis_sound(count, corners, 0) && regular_axis_sound(count, corners, 1)
        && regular_axis_sound(count, corners, 2);
    if ok3 {
        assert forall|j: int| 0 <= j < 3 implies #[trigger] regular_axis_sound(count, corners, j) by {
            if j == 0 {
            } else if j == 1 {
            } else {
            }
        }
    } else {
        if forall|j: int| 0 <= j < 3 ==> #[trigger] regular_axis_sound(count, corners, j) {
            assert(regular_axis_sound(count, corners, 0));
            assert(regular_axis_sound(count, corners, 1));
            assert(regular_axis_sound(count, corners, 2));
        }
        if corners[0] >= corners[3] {
            assert(corners[0] >= corners[0int + 3]);
        } else if corners[3] > count[0] {
            assert(corners[0int + 3] > count[0]);
        } else if corners[1] >= corners[4] {
            assert(corners[1] >= corners[1int + 3]);
        } else if corners[4] > count[1] {
            assert(corners[1int + 3] > count[1]);
        } else if corners[2] >= corners[5] {
            assert(corners[2] >= corners[2int + 3]);
        } else {
            assert(corners[2int + 3] > count[2]);
        }
    }
}

/// Checking a parent index read back succeeds exactly when it is inside the block count on
/// every axis, treating the three axes alike, and fails only with an out-of-range error
/// that carries the index and the count.
pub proof fn lemma_parent_check(block_count: [u32; 3], parent: [u32; 3])
    ensures
        spec_check_parent(block_count, parent) is Ok <==> forall|j: int|
            0 <= j < 3 ==> #[trigger] parent[j] < block_count[j],
        spec_check_parent(block_count, parent) matches Err(e) ==> e == Error::InvalidData(
            InvalidData::BlockIndexOutOfRange { value: parent, maximum: block_count },
        ),
{
    if parent[0] < block_count[0] && parent[1] < block_count[1] && parent[2] < block_count[2] {
        assert forall|j: int| 0 <= j < 3 implies #[trigger] parent[j] < block_count[j] by {
            if j == 0 {
            } else if j == 1 {
            } else {
            }
        }
    }
}

/// Checks regular sub-block corners against the sub-block count and the optional mode.
///
/// The mode comes with the valid sizes for it, as returned by
/// [`valid_subblock_sizes`](crate::write_checks::valid_subblock_sizes).
pub fn check_regular_corners(
    subblock_count: [u32; 3],
    mode_and_sizes: &Option<(SubblockMode, Vec<[u32; 3]>)>,
    corners: [u32; 6],
) -> (r: Result<(), Error>)
    requires
        mode_and_sizes matches Some((m, sizes)) ==> forall|s: [u32; 3]|
            sizes@.contains(s) <==> spec_valid_size(*m, subblock_count, s),
    ensures
        r == spec_check_regular_corners(
            subblock_count,
            match mode_and_sizes { Some((m, _)) => Some(*m), None => None },
            corners,
        ),
{
    let mut i: usize = 0;
    while i < 3
        invariant
            i <= 3,
            forall|j: int| 0 <= j < i ==> axis_failure(subblock_count, corners, j) is None,
        decreases 3 - i,
    {
        if corners[i] >= corners[i + 3] {
            return Err(Error::InvalidData(InvalidData::RegularSubblockZeroSize { corners }));
        }
        if corners[i + 3] > subblock_count[i] {
            return Err(Error::InvalidData(InvalidData::RegularSubblockOutsideParent {
                corners,
                maximum: subblock_count,
            }));
        }
        i += 1;
    }
    assert(positive_size(corners));
    if let Some((mode, valid_sizes)) = mode_and_sizes {
        let size = [corners[3] - corners[0], corners[4] - corners[1], corners[5] - corners[2]];
        assert(size =~= corner_size(corners));
        if !contains_size(valid_sizes, size) {
            return Err(Error::InvalidData(InvalidData::RegularSubblockNotInMode {
                corners,
                mode: *mode,
            }));
        }
        if *mode == SubblockMode::Octree && !subblock_is_octree_compat(&corners) {
            return Err(Error::InvalidData(InvalidData::RegularSubblockNotInMode {
                corners,
                mode: *mode,
            }));
        }
    }
    Ok(())
}


/// Checks a scalar read from a size array: sizes must be greater than zero. The value is a
/// double given by its bit pattern.
pub fn check_size(value_bits: u64) -> (r: Result<(), Error>)
    ensures
        f64_le_zero(value_bits) ==> r == Err::<(), Error>(
            Error::InvalidData(InvalidData::SizeZeroOrLess { value_bits }),
        ),
        !f64_le_zero(value_bits) ==> r is Ok,
{
    if le_zero_bits(value_bits) {
        Err(Error::InvalidData(InvalidData::SizeZeroOrLess { value_bits }))
    } else {
        Ok(())
    }
}

/// Checks a category index read back against the number of categories.
///
/// The error's maximum is the category count plus one, saturating.
pub fn check_index(index: u32, category_count: u64) -> (r: Result<(), Error>)
    ensures
        index >= category_count ==> r == Err::<(), Error>(
            Error::InvalidData(
                InvalidData::IndexOutOfRange {
                    value: index as u64,
                    maximum: if category_count < u64::MAX {
                        (category_count + 1) as u64
                    } else {
                        u64::MAX
                    },
                },
            ),
        ),
        index < category_count ==> r is Ok,
{
    if index as u64 >= category_count {
        Err(
            Error::InvalidData(
                InvalidData::IndexOutOfRange {
                    value: index as u64,
                    maximum: category_count.saturating_add(1),
                },
            ),
        )
    } else {
        Ok(())
    }
}

/// Checks the vertex indices of a segment or triangle read back against the vertex count,
/// reporting the first that is out of range.
pub fn check_primitive<const N: usize>(value: [u32; N], vertex_count: u64) -> (r: Result<(), Error>)
    ensures
        (forall|i: int| 0 <= i < N ==> value@[i] < vertex_count) ==> r is Ok,
        (exists|i: int| 0 <= i < N && value@[i] >= vertex_count) ==> exists|i: int|
            0 <= i < N && value@[i] >= vertex_count && (forall|j: int|
                0 <= j < i ==> value@[j] < vertex_count) && r == Err::<(), Error>(
                Error::InvalidData(
                    InvalidData::IndexOutOfRange {
                        value: value@[i] as u64,
                        maximum: if vertex_count < u64::MAX {
                            (vertex_count + 1) as u64
                        } else {
                            u64::MAX
                        },
                    },
                ),
            ),
{
    let mut i: usize = 0;
    while i < N
        invariant
            i <= N,
            value@.len() == N,
            forall|j: int| 0 <= j < i ==> value@[j] < vertex_count,
        decreases N - i,
    {
        if value[i] as u64 >= vertex_count {
            return Err(
                Error::InvalidData(
                    InvalidData::IndexOutOfRange {
                        value: value[i] as u64,
                        maximum: vertex_count.saturating_add(1),
                    },
                ),
            );
        }
        i += 1;
    }
    Ok(())
}

/// True if free-form sub-block corners pass both checks on axis `j`: the minimum is not below
/// zero, the maximum is not above one, and the minimum is below the maximum (a comparison
/// with NaN passes).
pub open spec fn freeform_axis_ok(c: [u64; 6], j: int) -> bool {
    &&& !(f64_lt(c[j], f64_zero()) || f64_lt(f64_one(), c[j + 3]))
    &&& !(!f64_lt(c[j], c[j + 3]) && !(f64_is_nan(c[j]) || f64_is_nan(c[j + 3])))
}

/// The outcome of checking free-form sub-block corners read back, axis by axis: a minimum
/// below zero or a maximum above one is outside the parent, and a minimum not below the
/// maximum is zero size. Corners are doubles given by their bit patterns.
pub open spec fn spec_check_freeform_corners(c: [u64; 6]) -> Result<(), Error> {
    if f64_lt(c[0], f64_zero()) || f64_lt(f64_one(), c[3]) {
        Err(Error::InvalidData(InvalidData::FreeformSubblockOutsideParent { corner_bits: c }))
    } else if !freeform_axis_ok(c, 0) {
        Err(Error::InvalidData(InvalidData::FreeformSubblockZeroSize { corner_bits: c }))
    } else if f64_lt(c[1], f64_zero()) || f64_lt(f64_one(), c[4]) {
        Err(Error::InvalidData(InvalidData::FreeformSubblockOutsideParent { corner_bits: c }))
    } else if !freeform_axis_ok(c, 1) {
        Err(Error::InvalidData(InvalidData::FreeformSubblockZeroSize { corner_bits: c }))
    } else if f64_lt(c[2], f64_zero()) || f64_lt(f64_one(), c[5]) {
        Err(Error::InvalidData(InvalidData::FreeformSubblockOutsideParent { corner_bits: c }))
    } else if !freeform_axis_ok(c, 2) {
        Err(Error::InvalidData(InvalidData::FreeformSubblockZeroSize { corner_bits: c }))
    } else {
        Ok(())
    }
}

/// What checking free-form corners read back gives: success exactly when every axis has a
/// size and lies inside the parent, treating the three axes alike; otherwise a zero-size
/// error only when some axis has no size, and an outside-the-parent error only when some axis
/// leaves the parent, each carrying the corners.
pub proof fn lemma_freeform_read_check(c: [u64; 6])
    ensures
        spec_check_freeform_corners(c) is Ok <==> forall|j: int|
            0 <= j < 3 ==> #[trigger] corners_sound(c, j),
        spec_check_freeform_corners(c) matches Err(e) ==> {
            ||| e == Error::InvalidData(InvalidData::FreeformSubblockZeroSize { corner_bits: c })
                && exists|j: int| 0 <= j < 3 && #[trigger] corners_zero_size(c, j)
            ||| e == Error::InvalidData(InvalidData::FreeformSubblockOutsideParent { corner_bits: c })
                && exists|j: int| 0 <= j < 3 && #[trigger] corners_outside(c, j)
        },
{
    if spec_check_freeform_corners(c) is Ok {
        assert forall|j: int| 0 <= j < 3 implies #[trigger] corners_sound(c, j) by {
            if j == 0 {
            } else if j == 1 {
            } else {
            }
        }
    } else {
        if forall|j: int| 0 <= j < 3 ==> #[trigger] corners_sound(c, j) {
            assert(corners_sound(c, 0));
            assert(corners_sound(c, 1));
            assert(corners_sound(c, 2));
        }
        if corners_outside(c, 0) {
            assert(corners_outside(c, 0));
        } else if corners_zero_size(c, 0) {
            assert(corners_zero_size(c, 0));
        } else if corners_outside(c, 1) {
            assert(corners_outside(c, 1));
        } else if corners_zero_size(c, 1) {
            assert(corners_zero_size(c, 1));
        } else if corners_outside(c, 2) {
            assert(corners_outside(c, 2));
        } else {
            assert(corners_zero_size(c, 2));
        }
    }
}

/// Free-form corners that the check made while writing accepts are exactly those that the
/// check made while reading back accepts.
pub proof fn lemma_freeform_checks_agree(c: [u64; 6])
    ensures
        spec_check_freeform_corners(c) is Ok <==> freeform_write_failure(c) is None,
{
    lemma_freeform_read_check(c);
    crate::write_checks::lemma_freeform_write_failure(c);
}

/// Checks free-form sub-block corners read back, as [`spec_check_freeform_corners`] describes.
pub fn check_freeform_corners(corner_bits: [u64; 6]) -> (r: Result<(), Error>)
    ensures
        r == spec_check_freeform_corners(corner_bits),
{
    let one: u64 = 0x3FF0_0000_0000_0000;
    let mut i: usize = 0;
    while i < 3
        invariant
            i <= 3,
            one == f64_one(),
            forall|j: int| 0 <= j < i ==> #[trigger] freeform_axis_ok(corner_bits, j),
        decreases 3 - i,
    {
        proof {
            if i > 0 {
                assert(freeform_axis_ok(corner_bits, 0));
            }
            if i > 1 {
                assert(freeform_axis_ok(corner_bits, 1));
            }
        }
        if lt_bits(corner_bits[i], 0) || lt_bits(one, corner_bits[i + 3]) {
            return Err(Error::InvalidData(InvalidData::FreeformSubblockOutsideParent { corner_bits }));
        }
        if !lt_bits(corner_bits[i], corner_bits[i + 3]) && !(is_nan_bits(corner_bits[i])
            || is_nan_bits(corner_bits[i + 3])) {
            return Err(Error::InvalidData(InvalidData::FreeformSubblockZeroSize { corner_bits }));
        }
        i += 1;
    }
    assert(freeform_axis_ok(corner_bits, 0));
    assert(freeform_axis_ok(corner_bits, 1));
    assert(freeform_axis_ok(corner_bits, 2));
    Ok(())
}

/// Checks boundary values as they are read back: each must not be below the value before it.
#[derive(Debug)]
pub struct BoundaryOrder<T: NumberType> {
    previous: Option<T>,
}

impl<T: NumberType> BoundaryOrder<T> {
    /// The last value accepted.
    pub closed spec fn previous(&self) -> Option<T> {
        self.previous
    }

    /// Starts with no value accepted.
    pub fn new() -> (b: Self)
        ensures
            b.previous() is None,
    {
        BoundaryOrder { previous: None }
    }

    /// Checks the next value: one below the last value accepted fails with
    /// `BoundaryDecreases` and is not recorded; otherwise it is accepted.
    pub fn check(&mut self, value: T) -> (r: Result<(), InvalidData>)
        ensures
            (old(self).previous() matches Some(p) && value.spec_less_than(p)) ==> {
                &&& r == Err::<(), InvalidData>(InvalidData::BoundaryDecreases)
                &&& final(self).previous() == old(self).previous()
            },
            !(old(self).previous() matches Some(p) && value.spec_less_than(p)) ==> {
                &&& r is Ok
                &&& final(self).previous() == Some(value)
            },
    {
        if let Some(p) = &self.previous {
            if value.less_than(p) {
                return Err(InvalidData::BoundaryDecreases);
            }
        }
        self.previous = Some(value);
        Ok(())
    }
}

// ---------------------------------------------------------------------------------------
// The checks gathered while writing agree with the checks made while reading

/// The largest index in `s`, or zero: what a new [`MaximumIndex`](crate::write_checks::MaximumIndex)
/// holds after visiting `s` in turn.
pub open spec fn indices_maximum(s: Seq<u32>) -> u32 {
    fold_max(0, s)
}

proof fn lemma_fold_max_bounds(init: u32, s: Seq<u32>)
    ensures
        init <= fold_max(init, s),
        forall|i: int| 0 <= i < s.len() ==> s[i] <= fold_max(init, s),
        fold_max(init, s) == init || exists|i: int| 0 <= i < s.len() && s[i] == fold_max(init, s),
    decreases s.len(),
{
    if s.len() > 0 {
        let init_s = s.drop_last();
        lemma_fold_max_bounds(init, init_s);
        assert forall|i: int| 0 <= i < s.len() implies s[i] <= fold_max(init, s) by {
            if i < s.len() - 1 {
                assert(s[i] == init_s[i]);
            }
        }
        if fold_max(init, s) != init {
            if fold_max(init, s) == s.last() {
                assert(s[s.len() - 1] == fold_max(init, s));
            } else {
                let i = choose|i: int| 0 <= i < init_s.len() && init_s[i] == fold_max(init, init_s);
                assert(s[i] == init_s[i]);
            }
        }
    }
}

/// The index check gathered while writing passes exactly when every index written is below
/// the count, which is what checking each index as it is read back asks.
///
/// With no index written and a count of zero the gathered check still fails, so that case is
/// left out.
pub proof fn lemma_index_check_agrees(s: Seq<u32>, count: u64)
    requires
        s.len() > 0 || count > 0,
    ensures
        spec_check(ArrayWriteCheck::MaximumIndex(indices_maximum(s)), Constraint::Index(count)) is Ok
            <==> forall|i: int| 0 <= i < s.len() ==> s[i] < count,
        spec_check(ArrayWriteCheck::MaximumIndex(indices_maximum(s)), Constraint::Segment(count)) is Ok
            <==> forall|i: int| 0 <= i < s.len() ==> s[i] < count,
        spec_check(ArrayWriteCheck::MaximumIndex(indices_maximum(s)), Constraint::Triangle(count)) is Ok
            <==> forall|i: int| 0 <= i < s.len() ==> s[i] < count,
{
    lemma_fold_max_bounds(0, s);
    let m = indices_maximum(s);
    if forall|i: int| 0 <= i < s.len() ==> s[i] < count {
        if m != 0 {
            let i = choose|i: int| 0 <= i < s.len() && s[i] == m;
            assert(s[i] < count);
        } else if s.len() > 0 {
            assert(s[0] < count);
        }
    }
}


/// After a run of parents, the parent kept for each axis reaches at least as far along that
/// axis as every parent seen, and is one of them unless it is the starting zero.
pub proof fn lemma_parents_maximum_axis(s: Seq<[u32; 3]>, a: int)
    requires
        0 <= a < 3,
    ensures
        forall|i: int| 0 <= i < s.len() ==> s[i][a] <= parents_maximum(s)[a][a],
        parents_maximum(s)[a][a] == 0 || exists|i: int|
            0 <= i < s.len() && s[i][a] == parents_maximum(s)[a][a],
    decreases s.len(),
{
    if s.len() > 0 {
        let init = s.drop_last();
        lemma_parents_maximum_axis(init, a);
        let m = parents_maximum(s)[a][a];
        assert(m == max_u32(parents_maximum(init)[a][a], s.last()[a]));
        assert forall|i: int| 0 <= i < s.len() implies s[i][a] <= m by {
            if i < s.len() - 1 {
                assert(s[i] == init[i]);
            }
        }
        if m != 0 {
            if m == s.last()[a] {
                assert(s[s.len() - 1][a] == m);
            } else {
                let i = choose|i: int| 0 <= i < init.len() && init[i][a] == parents_maximum(init)[a][a];
                assert(s[i] == init[i]);
            }
        }
    }
}

/// After a run of parents, the parent kept for each axis is the first parent seen that
/// reaches furthest along it, or all zeros while no parent has gone past zero on that axis.
pub proof fn lemma_parents_maximum_first(s: Seq<[u32; 3]>, a: int)
    requires
        0 <= a < 3,
    ensures
        parents_maximum(s)[a][a] == 0 ==> parents_maximum(s)[a] == [0u32, 0u32, 0u32],
        parents_maximum(s)[a][a] > 0 ==> exists|k: int|
            0 <= k < s.len() && s[k] == parents_maximum(s)[a] && forall|j: int|
                0 <= j < k ==> s[j][a] < parents_maximum(s)[a][a],
    decreases s.len(),
{
    if s.len() == 0 {
        let z = [0u32, 0u32, 0u32];
        assert(parents_maximum(s)[a] =~= z);
    } else {
        let init = s.drop_last();
        lemma_parents_maximum_first(init, a);
        lemma_parents_maximum_axis(init, a);
        let m0 = parents_maximum(init);
        let m = parents_maximum(s);
        if s.last()[a] > m0[a][a] {
            assert(m[a] == s.last());
            assert forall|j: int| 0 <= j < s.len() - 1 implies s[j][a] < m[a][a] by {
                assert(s[j] == init[j]);
            }
            assert(s[s.len() - 1] == m[a]);
        } else {
            assert(m[a] == m0[a]);
            if m[a][a] > 0 {
                let k = choose|k: int|
                    0 <= k < init.len() && init[k] == m0[a] && forall|j: int|
                        0 <= j < k ==> init[j][a] < m0[a][a];
                assert(s[k] == init[k]);
                assert forall|j: int| 0 <= j < k implies s[j][a] < m[a][a] by {
                    assert(s[j] == init[j]);
                }
            }
        }
    }
}

/// The block index check gathered while writing passes exactly when every parent block index
/// written is inside the block grid, which is what [`check_parent`] asks of each one as it is
/// read back.
///
/// With no parent written and a block count of zero on some axis the gathered check still
/// fails, so that case is left out.
pub proof fn lemma_parent_check_agrees(
    s: Seq<[u32; 3]>,
    block_count: [u32; 3],
    subblock_count: [u32; 3],
    mode: Option<SubblockMode>,
)
    requires
        s.len() > 0 || (block_count[0] > 0 && block_count[1] > 0 && block_count[2] > 0),
    ensures
        spec_check(
            ArrayWriteCheck::Subblocks(parents_maximum(s)),
            Constraint::RegularSubblock { block_count, subblock_count, mode },
        ) is Ok <==> forall|i: int| 0 <= i < s.len() ==> spec_check_parent(block_count, s[i]) is Ok,
        spec_check(
            ArrayWriteCheck::Subblocks(parents_maximum(s)),
            Constraint::FreeformSubblock { block_count },
        ) is Ok <==> forall|i: int| 0 <= i < s.len() ==> spec_check_parent(block_count, s[i]) is Ok,
{
    lemma_parents_maximum_axis(s, 0);
    lemma_parents_maximum_axis(s, 1);
    lemma_parents_maximum_axis(s, 2);
    let m = parents_maximum(s);
    if forall|i: int| 0 <= i < s.len() ==> spec_check_parent(block_count, s[i]) is Ok {
        assert forall|a: int| 0 <= a < 3 implies m[a][a] < block_count[a] by {
            if m[a][a] != 0 {
                let i = choose|i: int| 0 <= i < s.len() && s[i][a] == m[a][a];
                assert(spec_check_parent(block_count, s[i]) is Ok);
            } else if s.len() > 0 {
                assert(spec_check_parent(block_count, s[0]) is Ok);
            }
        }
        assert(m[0][0] < block_count[0]);
        assert(m[1][1] < block_count[1]);
        assert(m[2][2] < block_count[2]);
    } else {
        let i = choose|i: int| 0 <= i < s.len() && !(spec_check_parent(block_count, s[i]) is Ok);
        assert(s[i][0] <= m[0][0] && s[i][1] <= m[1][1] && s[i][2] <= m[2][2]);
    }
}


/// After a run of regular sub-blocks, the corners kept for each axis reach at least as far
/// along that axis as every sub-block seen, and are one of them unless they are the starting
/// zeros.
pub proof fn lemma_corners_maximum_axis(s: Seq<[u32; 6]>, a: int)
    requires
        0 <= a < 3,
    ensures
        forall|i: int| 0 <= i < s.len() ==> s[i][a + 3] <= corners_maximum(s)[a][a + 3],
        corners_maximum(s)[a][a + 3] == 0 || exists|i: int|
            0 <= i < s.len() && s[i][a + 3] == corners_maximum(s)[a][a + 3],
    decreases s.len(),
{
    if s.len() > 0 {
        let init = s.drop_last();
        lemma_corners_maximum_axis(init, a);
        let m = corners_maximum(s)[a][a + 3];
        assert(m == max_u32(corners_maximum(init)[a][a + 3], s.last()[a + 3]));
        assert forall|i: int| 0 <= i < s.len() implies s[i][a + 3] <= m by {
            if i < s.len() - 1 {
                assert(s[i] == init[i]);
            }
        }
        if m != 0 {
            if m == s.last()[a + 3] {
                assert(s[s.len() - 1][a + 3] == m);
            } else {
                let i = choose|i: int|
                    0 <= i < init.len() && init[i][a + 3] == corners_maximum(init)[a][a + 3];
                assert(s[i] == init[i]);
            }
        }
    }
}

/// After a run of regular sub-blocks, the corners kept for each axis are those of the first
/// sub-block seen that reaches furthest along it, or all zeros while no sub-block has gone
/// past zero on that axis.
pub proof fn lemma_corners_maximum_first(s: Seq<[u32; 6]>, a: int)
    requires
        0 <= a < 3,
    ensures
        corners_maximum(s)[a][a + 3] == 0 ==> corners_maximum(s)[a] == [0u32, 0u32, 0u32, 0u32, 0u32, 0u32],
        corners_maximum(s)[a][a + 3] > 0 ==> exists|k: int|
            0 <= k < s.len() && s[k] == corners_maximum(s)[a] && forall|j: int|
                0 <= j < k ==> s[j][a + 3] < corners_maximum(s)[a][a + 3],
    decreases s.len(),
{
    if s.len() == 0 {
        let z = [0u32, 0u32, 0u32, 0u32, 0u32, 0u32];
        assert(corners_maximum(s)[a] =~= z);
    } else {
        let init = s.drop_last();
        lemma_corners_maximum_first(init, a);
        lemma_corners_maximum_axis(init, a);
        let m0 = corners_maximum(init);
        let m = corners_maximum(s);
        if s.last()[a + 3] > m0[a][a + 3] {
            assert(m[a] == s.last());
            assert forall|j: int| 0 <= j < s.len() - 1 implies s[j][a + 3] < m[a][a + 3] by {
                assert(s[j] == init[j]);
            }
            assert(s[s.len() - 1] == m[a]);
        } else {
            assert(m[a] == m0[a]);
            if m[a][a + 3] > 0 {
                let k = choose|k: int|
                    0 <= k < init.len() && init[k] == m0[a] && forall|j: int|
                        0 <= j < k ==> init[j][a + 3] < m0[a][a + 3];
                assert(s[k] == init[k]);
                assert forall|j: int| 0 <= j < k implies s[j][a + 3] < m[a][a + 3] by {
                    assert(s[j] == init[j]);
                }
            }
        }
    }
}

/// The outside-parent check gathered while writing regular sub-blocks passes exactly when
/// every maximum corner written is within the sub-block count, the bound that reading checks
/// each sub-block's corners against.
pub proof fn lemma_corner_check_agrees(
    s: Seq<[u32; 6]>,
    block_count: [u32; 3],
    subblock_count: [u32; 3],
    mode: Option<SubblockMode>,
)
    ensures
        spec_check(
            ArrayWriteCheck::RegularSubblocksMaximum(corners_maximum(s)),
            Constraint::RegularSubblock { block_count, subblock_count, mode },
        ) is Ok <==> forall|i: int|
            0 <= i < s.len() ==> s[i][3] <= subblock_count[0] && s[i][4] <= subblock_count[1]
                && s[i][5] <= subblock_count[2],
{
    lemma_corners_maximum_axis(s, 0);
    lemma_corners_maximum_axis(s, 1);
    lemma_corners_maximum_axis(s, 2);
    let m = corners_maximum(s);
    if forall|i: int|
        0 <= i < s.len() ==> s[i][3] <= subblock_count[0] && s[i][4] <= subblock_count[1]
            && s[i][5] <= subblock_count[2] {
        assert forall|a: int| 0 <= a < 3 implies m[a][a + 3] <= subblock_count[a] by {
            if m[a][a + 3] != 0 {
                let i = choose|i: int| 0 <= i < s.len() && s[i][a + 3] == m[a][a + 3];
                assert(s[i][3] <= subblock_count[0] && s[i][4] <= subblock_count[1]
                    && s[i][5] <= subblock_count[2]);
            }
        }
        assert(m[0][3] <= subblock_count[0]);
        assert(m[1][4] <= subblock_count[1]);
        assert(m[2][5] <= subblock_count[2]);
    } else {
        let i = choose|i: int|
            0 <= i < s.len() && !(s[i][3] <= subblock_count[0] && s[i][4] <= subblock_count[1]
                && s[i][5] <= subblock_count[2]);
        assert(s[i][3] <= m[0][3] && s[i][4] <= m[1][4] && s[i][5] <= m[2][5]);
    }
}


/// The distinct corner sets kept after a run hold exactly the corner sets seen.
pub proof fn lemma_distinct_corners_contains(s: Seq<[u32; 6]>)
    ensures
        forall|c: [u32; 6]| distinct_corners(s).contains(c) <==> s.contains(c),
    decreases s.len(),
{
    if s.len() > 0 {
        let init = s.drop_last();
        lemma_distinct_corners_contains(init);
        let kept = distinct_corners(init);
        assert forall|c: [u32; 6]| distinct_corners(s).contains(c) implies s.contains(c) by {
            if kept.contains(c) {
                assert(init.contains(c));
                let i = choose|i: int| 0 <= i < init.len() && init[i] == c;
                assert(s[i] == c);
            } else {
                let j = choose|j: int| 0 <= j < distinct_corners(s).len() && distinct_corners(s)[j] == c;
                assert(distinct_corners(s) == kept.push(s.last()));
                if j < kept.len() {
                    assert(kept[j] == c);
                }
                assert(c == s.last());
                assert(s[s.len() - 1] == c);
            }
        }
        assert forall|c: [u32; 6]| s.contains(c) implies distinct_corners(s).contains(c) by {
            let i = choose|i: int| 0 <= i < s.len() && s[i] == c;
            if i < s.len() - 1 {
                assert(init[i] == c);
                assert(init.contains(c));
                assert(kept.contains(c));
                let j = choose|j: int| 0 <= j < kept.len() && kept[j] == c;
                if !kept.contains(s.last()) {
                    assert(kept.push(s.last())[j] == c);
                }
            } else if !kept.contains(c) {
                assert(kept.push(s.last())[kept.len() as int] == c);
            }
        }
    }
}

proof fn lemma_first_outside_mode_none(all: Seq<[u32; 6]>, mode: SubblockMode, count: [u32; 3])
    ensures
        first_outside_mode(all, mode, count) is None <==> forall|i: int|
            0 <= i < all.len() ==> spec_in_mode(mode, count, #[trigger] all[i]),
    decreases all.len(),
{
    if all.len() > 0 {
        let init = all.drop_last();
        lemma_first_outside_mode_none(init, mode, count);
        if forall|i: int| 0 <= i < all.len() ==> spec_in_mode(mode, count, #[trigger] all[i]) {
            assert forall|i: int| 0 <= i < init.len() implies spec_in_mode(mode, count, #[trigger] init[i]) by {
                assert(init[i] == all[i]);
            }
            assert(spec_in_mode(mode, count, all[all.len() - 1]));
        }
        if first_outside_mode(all, mode, count) is None {
            assert forall|i: int| 0 <= i < all.len() implies spec_in_mode(mode, count, #[trigger] all[i]) by {
                if i < all.len() - 1 {
                    assert(init[i] == all[i]);
                }
            }
        }
    }
}

/// The sub-block mode check gathered while writing regular sub-blocks passes exactly when
/// every sub-block written fits the mode: a positive size that the mode allows, aligned to
/// that size in octree mode, as reading checks each sub-block. Keeping each distinct corner
/// set once loses no sub-block that would fail.
pub proof fn lemma_mode_check_agrees(
    s: Seq<[u32; 6]>,
    all: Vec<[u32; 6]>,
    block_count: [u32; 3],
    subblock_count: [u32; 3],
    mode: SubblockMode,
)
    requires
        all@ == distinct_corners(s),
    ensures
        spec_check(
            ArrayWriteCheck::RegularSubblockCorners(all),
            Constraint::RegularSubblock { block_count, subblock_count, mode: Some(mode) },
        ) is Ok <==> forall|i: int| 0 <= i < s.len() ==> spec_in_mode(mode, subblock_count, #[trigger] s[i]),
{
    lemma_distinct_corners_contains(s);
    lemma_first_outside_mode_none(all@, mode, subblock_count);
    if forall|i: int| 0 <= i < s.len() ==> spec_in_mode(mode, subblock_count, #[trigger] s[i]) {
        assert forall|j: int| 0 <= j < all@.len() implies spec_in_mode(mode, subblock_count, #[trigger] all@[j]) by {
            assert(distinct_corners(s)[j] == all@[j]);
            assert(distinct_corners(s).contains(all@[j]));
            assert(s.contains(all@[j]));
            let i = choose|i: int| 0 <= i < s.len() && s[i] == all@[j];
            assert(spec_in_mode(mode, subblock_count, s[i]));
        }
    }
    if forall|j: int| 0 <= j < all@.len() ==> spec_in_mode(mode, subblock_count, #[trigger] all@[j]) {
        assert forall|i: int| 0 <= i < s.len() implies spec_in_mode(mode, subblock_count, #[trigger] s[i]) by {
            assert(s.contains(s[i]));
            let j = choose|j: int| 0 <= j < all@.len() && all@[j] == s[i];
            assert(spec_in_mode(mode, subblock_count, all@[j]));
        }
    }
}

} // verus!
