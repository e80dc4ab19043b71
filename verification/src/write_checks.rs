//! Checks gathered while array data is written, and run once validation knows how the array
//! is used.
//!
//! While writing, the visitors in this module look at every item and remember just enough to
//! decide later whether the data fits the [`Constraint`] that validation attaches: the
//! largest index, the largest parent block index, the extreme sub-block corners, and so on.

use vstd::prelude::*;

use crate::array::{Array, ArrayType, Constraint};
use crate::block_model::SubblockMode;
use crate::error::InvalidData;
use crate::problem::Reason;
use crate::float_bits::{f64_is_nan, f64_le_zero, f64_lt, f64_one, f64_zero, is_nan_bits, le_zero_bits, lt_bits};

verus! {

// ---------------------------------------------------------------------------------------
// Sub-block sizes

/// One halving step of an octree sub-block size: each axis halves, but never below one.
pub open spec fn halve(size: [u32; 3]) -> [u32; 3] {
    [
        if size[0] / 2 >= 1 { (size[0] / 2) as u32 } else { 1u32 },
        if size[1] / 2 >= 1 { (size[1] / 2) as u32 } else { 1u32 },
        if size[2] / 2 >= 1 { (size[2] / 2) as u32 } else { 1u32 },
    ]
}

/// The size after `k` halving steps.
pub open spec fn halve_n(size: [u32; 3], k: nat) -> [u32; 3]
    decreases k,
{
    if k == 0 {
        size
    } else {
        halve(halve_n(size, (k - 1) as nat))
    }
}

/// True if `size` is a sub-block size allowed by `mode` for sub-block grid `count`.
///
/// In octree mode the valid sizes are the count and every size reached by repeatedly
/// halving it. In full mode they are the count and a single cell.
pub open spec fn spec_valid_size(mode: SubblockMode, count: [u32; 3], size: [u32; 3]) -> bool {
    match mode {
        SubblockMode::Octree => exists|k: nat| halve_n(count, k) == size,
        SubblockMode::Full => size == [1u32, 1u32, 1u32] || size == count,
    }
}

spec fn size_measure_axis(n: u32) -> int {
    if n == 0 { 2 } else { n as int }
}

spec fn size_measure(size: [u32; 3]) -> int {
    size_measure_axis(size[0]) + size_measure_axis(size[1]) + size_measure_axis(size[2])
}

proof fn lemma_halve_ones(k: nat)
    ensures
        halve_n([1u32, 1u32, 1u32], k) == [1u32, 1u32, 1u32],
    decreases k,
{
    if k > 0 {
        lemma_halve_ones((k - 1) as nat);
        assert(halve([1u32, 1u32, 1u32]) =~= [1u32, 1u32, 1u32]);
    }
}

proof fn lemma_halve_measure(size: [u32; 3])
    requires
        size != [1u32, 1u32, 1u32],
    ensures
        size_measure(halve(size)) < size_measure(size),
{
    if size[0] == 1 && size[1] == 1 && size[2] == 1 {
        assert(size =~= [1u32, 1u32, 1u32]);
    }
}

/// After reaching a single cell, further halving stays at a single cell.
proof fn lemma_halve_past_ones(size: [u32; 3], k: nat, m: nat)
    requires
        halve_n(size, k) == [1u32, 1u32, 1u32],
        k <= m,
    ensures
        halve_n(size, m) == [1u32, 1u32, 1u32],
    decreases m - k,
{
    if m > k {
        lemma_halve_past_ones(size, k, (m - 1) as nat);
        assert(halve([1u32, 1u32, 1u32]) =~= [1u32, 1u32, 1u32]);
    }
}

/// The number of halving steps that take one axis of a size to a single cell.
pub open spec fn axis_steps(n: u32) -> nat
    decreases n,
{
    if n == 1 {
        0
    } else if n == 0 {
        1
    } else {
        1 + axis_steps((n / 2) as u32)
    }
}

/// The number of halving steps that take a size to a single cell.
pub open spec fn size_steps(size: [u32; 3]) -> nat {
    let a = axis_steps(size[0]);
    let b = axis_steps(size[1]);
    let c = axis_steps(size[2]);
    if a >= b && a >= c {
        a
    } else if b >= c {
        b
    } else {
        c
    }
}

proof fn lemma_axis_steps_bound(n: u32, j: nat)
    requires
        1 <= j,
        n < vstd::arithmetic::power2::pow2(j),
    ensures
        axis_steps(n) <= j,
    decreases j,
{
    vstd::arithmetic::power2::lemma_pow2_unfold(j);
    if n >= 2 && j > 1 {
        lemma_axis_steps_bound((n / 2) as u32, (j - 1) as nat);
    } else if n >= 2 {
        assert(vstd::arithmetic::power2::pow2(0) == 1) by {
            vstd::arithmetic::power2::lemma2_to64();
        }
    }
}

proof fn lemma_size_steps_bound(size: [u32; 3])
    ensures
        size_steps(size) <= 32,
{
    assert(vstd::arithmetic::power2::pow2(32) == 0x1_0000_0000) by {
        vstd::arithmetic::power2::lemma2_to64();
    }
    lemma_axis_steps_bound(size[0], 32);
    lemma_axis_steps_bound(size[1], 32);
    lemma_axis_steps_bound(size[2], 32);
}

/// Halving a size that is not a single cell takes exactly one step off the steps left.
proof fn lemma_halve_steps(size: [u32; 3])
    ensures
        size == [1u32, 1u32, 1u32] <==> size_steps(size) == 0,
        size != [1u32, 1u32, 1u32] ==> size_steps(halve(size)) + 1 == size_steps(size),
{
    if size_steps(size) == 0 {
        assert(size =~= [1u32, 1u32, 1u32]);
    }
}

fn halve_exec(size: [u32; 3]) -> (h: [u32; 3])
    ensures
        h == halve(size),
{
    let a = if size[0] / 2 >= 1 { size[0] / 2 } else { 1 };
    let b = if size[1] / 2 >= 1 { size[1] / 2 } else { 1 };
    let c = if size[2] / 2 >= 1 { size[2] / 2 } else { 1 };
    let h = [a, b, c];
    assert(h =~= halve(size));
    h
}

fn same_size(a: [u32; 3], b: [u32; 3]) -> (r: bool)
    ensures
        r == (a == b),
{
    let r = a[0] == b[0] && a[1] == b[1] && a[2] == b[2];
    proof {
        if r {
            assert(a =~= b);
        }
    }
    r
}

/// Returns the sub-block sizes that `mode` allows inside a parent divided into `count`.
pub fn valid_subblock_sizes(mode: SubblockMode, subblock_count: [u32; 3]) -> (sizes: Vec<[u32; 3]>)
    ensures
        forall|s: [u32; 3]| sizes@.contains(s) <==> spec_valid_size(mode, subblock_count, s),
        sizes@.no_duplicates(),
        sizes@.len() <= 33,
{
    let mut sizes: Vec<[u32; 3]> = Vec::new();
    match mode {
        SubblockMode::Octree => {
            let mut size = subblock_count;
            let ghost mut k: nat = 0;
            loop
                invariant
                    size == halve_n(subblock_count, k),
                    sizes@ =~= Seq::new(k, |j: int| halve_n(subblock_count, j as nat)),
                    mode == SubblockMode::Octree,
                    forall|j: nat| j < k ==> halve_n(subblock_count, j) != [1u32, 1u32, 1u32],
                    forall|j: nat| j <= k ==> #[trigger] size_steps(halve_n(subblock_count, j)) + j
                        == size_steps(subblock_count),
                decreases size_measure(size),
            {
                sizes.push(size);
                proof {
                    assert(sizes@ =~= Seq::new(k + 1, |j: int| halve_n(subblock_count, j as nat)));
                }
                if same_size(size, [1, 1, 1]) {
                    proof {
                        let kk = k;
                        lemma_size_steps_bound(subblock_count);
                        assert forall|i: int, j: int| 0 <= i < sizes@.len() && 0 <= j < sizes@.len() && i != j
                            implies sizes@[i] != sizes@[j] by {
                            assert(size_steps(halve_n(subblock_count, i as nat)) + i == size_steps(subblock_count));
                            assert(size_steps(halve_n(subblock_count, j as nat)) + j == size_steps(subblock_count));
                        }
                        lemma_halve_steps(size);
                        assert(size_steps(halve_n(subblock_count, kk)) + kk == size_steps(subblock_count));
                        assert forall|s: [u32; 3]| sizes@.contains(s) implies spec_valid_size(mode, subblock_count, s) by {
                            let j = choose|j: int| 0 <= j < sizes@.len() && sizes@[j] == s;
                            assert(halve_n(subblock_count, j as nat) == s);
                        }
                        assert forall|s: [u32; 3]| spec_valid_size(mode, subblock_count, s) implies sizes@.contains(s) by {
                            assert(exists|m: nat| halve_n(subblock_count, m) == s);
                            let m = choose|m: nat| halve_n(subblock_count, m) == s;
                            if m <= kk {
                                assert(sizes@[m as int] == s);
                            } else {
                                lemma_halve_past_ones(subblock_count, kk, m);
                                assert(sizes@[kk as int] == s);
                            }
                        }
                    }
                    return sizes;
                }
                let next = halve_exec(size);
                proof {
                    lemma_halve_measure(size);
                    lemma_halve_steps(size);
                    assert(halve_n(subblock_count, k + 1) == halve(size));
                    k = k + 1;
                }
                size = next;
            }
        },
        SubblockMode::Full => {
            sizes.push([1, 1, 1]);
            if !same_size(subblock_count, [1, 1, 1]) {
                sizes.push(subblock_count);
            }
            proof {
                assert forall|s: [u32; 3]| sizes@.contains(s) <==> spec_valid_size(mode, subblock_count, s) by {
                    if s == [1u32, 1u32, 1u32] {
                        assert(sizes@[0] == s);
                    }
                    if s == subblock_count && s != [1u32, 1u32, 1u32] {
                        assert(sizes@[1] == s);
                    }
                }
            }
            sizes
        },
    }
}

/// Returns true if `size` is one of `sizes`.
pub(crate) fn contains_size(sizes: &Vec<[u32; 3]>, size: [u32; 3]) -> (r: bool)
    ensures
        r == sizes@.contains(size),
{
    let mut i: usize = 0;
    while i < sizes.len()
        invariant
            i <= sizes@.len(),
            forall|j: int| 0 <= j < i ==> sizes@[j] != size,
        decreases sizes@.len() - i,
    {
        if same_size(sizes[i], size) {
            return true;
        }
        i += 1;
    }
    false
}

// ---------------------------------------------------------------------------------------
// Sub-block corners

/// True if a regular sub-block's minimum corner is below its maximum corner on every axis.
pub open spec fn positive_size(corners: [u32; 6]) -> bool {
    corners[0] < corners[3] && corners[1] < corners[4] && corners[2] < corners[5]
}

/// The size of a regular sub-block, for corners with positive size.
pub open spec fn corner_size(corners: [u32; 6]) -> [u32; 3] {
    [
        (corners[3] - corners[0]) as u32,
        (corners[4] - corners[1]) as u32,
        (corners[5] - corners[2]) as u32,
    ]
}

/// True if every minimum corner is a multiple of the sub-block size on that axis, so the
/// sub-block sits where octree division would put it.
pub open spec fn spec_octree_compat(corners: [u32; 6]) -> bool {
    &&& corners[0] % ((corners[3] - corners[0]) as u32) == 0
    &&& corners[1] % ((corners[4] - corners[1]) as u32) == 0
    &&& corners[2] % ((corners[5] - corners[2]) as u32) == 0
}

/// Returns true if the sub-block's minimum corner is aligned to its size on every axis.
pub fn subblock_is_octree_compat(corners: &[u32; 6]) -> (r: bool)
    requires
        positive_size(*corners),
    ensures
        r == spec_octree_compat(*corners),
{
    corners[0] % (corners[3] - corners[0]) == 0
        && corners[1] % (corners[4] - corners[1]) == 0
        && corners[2] % (corners[5] - corners[2]) == 0
}

/// True if a regular sub-block fits the sub-block mode: it has a positive size, that size is
/// valid for the mode, and in octree mode it is also aligned to its size.
pub open spec fn spec_in_mode(mode: SubblockMode, count: [u32; 3], corners: [u32; 6]) -> bool {
    &&& positive_size(corners)
    &&& spec_valid_size(mode, count, corner_size(corners))
    &&& (mode == SubblockMode::Octree ==> spec_octree_compat(corners))
}

/// A sub-block fits a mode exactly when, on every axis alike, its minimum corner is below its
/// maximum; its size is one the mode allows for the sub-block count; and, in octree mode,
/// every minimum corner is a multiple of the size along that axis.
pub proof fn lemma_in_mode(mode: SubblockMode, count: [u32; 3], corners: [u32; 6])
    ensures
        spec_in_mode(mode, count, corners) <==> {
            &&& forall|j: int| 0 <= j < 3 ==> #[trigger] corners[j] < corners[j + 3]
            &&& spec_valid_size(mode, count, corner_size(corners))
            &&& mode == SubblockMode::Octree ==> forall|j: int|
                0 <= j < 3 ==> #[trigger] (corners[j] % ((corners[j + 3] - corners[j]) as u32)) == 0
        },
{
    let c = corners;
    if c[0] < c[3] && c[1] < c[4] && c[2] < c[5] {
        assert forall|j: int| 0 <= j < 3 implies #[trigger] c[j] < c[j + 3] by {
            if j == 0 {
            } else if j == 1 {
            } else {
            }
        }
        if spec_octree_compat(c) {
            assert forall|j: int| 0 <= j < 3 implies #[trigger] (c[j] % ((c[j + 3] - c[j]) as u32))
                == 0 by {
                if j == 0 {
                } else if j == 1 {
                } else {
                }
            }
        }
        if forall|j: int| 0 <= j < 3 ==> #[trigger] (c[j] % ((c[j + 3] - c[j]) as u32)) == 0 {
            assert((c[0] % ((c[0int + 3] - c[0]) as u32)) == 0);
            assert((c[1] % ((c[1int + 3] - c[1]) as u32)) == 0);
            assert((c[2] % ((c[2int + 3] - c[2]) as u32)) == 0);
        }
    } else {
        if forall|j: int| 0 <= j < 3 ==> #[trigger] c[j] < c[j + 3] {
            assert(c[0] < c[0int + 3]);
            assert(c[1] < c[1int + 3]);
            assert(c[2] < c[2int + 3]);
        }
    }
}

/// One halving step halves every axis alike, never going below one.
pub proof fn lemma_halve(size: [u32; 3])
    ensures
        forall|j: int| 0 <= j < 3 ==> #[trigger] halve(size)[j] == if size[j] / 2 >= 1 {
            size[j] / 2
        } else {
            1
        },
{
    assert forall|j: int| 0 <= j < 3 implies #[trigger] halve(size)[j] == if size[j] / 2 >= 1 {
        size[j] / 2
    } else {
        1
    } by {
        if j == 0 {
        } else if j == 1 {
        } else {
        }
    }
}

/// The position of the first sub-block in `all` that doesn't fit the mode, if any.
pub open spec fn first_outside_mode(
    all: Seq<[u32; 6]>,
    mode: SubblockMode,
    count: [u32; 3],
) -> Option<int>
    decreases all.len(),
{
    if all.len() == 0 {
        None
    } else {
        match first_outside_mode(all.drop_last(), mode, count) {
            Some(i) => Some(i),
            None => if !spec_in_mode(mode, count, all.last()) {
                Some(all.len() - 1)
            } else {
                None
            },
        }
    }
}

proof fn lemma_first_outside_mode_bounds(all: Seq<[u32; 6]>, mode: SubblockMode, count: [u32; 3])
    ensures
        first_outside_mode(all, mode, count) matches Some(i) ==> 0 <= i < all.len(),
    decreases all.len(),
{
    if all.len() > 0 {
        lemma_first_outside_mode_bounds(all.drop_last(), mode, count);
    }
}

// ---------------------------------------------------------------------------------------
// The checks

/// A check on the data of an array, gathered while writing it.
#[derive(Debug, Clone, PartialEq)]
pub enum ArrayWriteCheck {
    /// The minimum of the scalar values written, as its bit pattern, and whether it is
    /// greater than zero. Used when the scalars are sizes, which must be positive.
    MinimumScalar { value_bits: u64, positive: bool },
    /// The largest index written.
    MaximumIndex(u32),
    /// For each axis, the parent index that reached furthest along that axis.
    Subblocks([[u32; 3]; 3]),
    /// For each axis, the regular sub-block corners that reached furthest along that axis.
    RegularSubblocksMaximum([[u32; 6]; 3]),
    /// Every distinct set of regular sub-block corners written, in the order first seen.
    RegularSubblockCorners(Vec<[u32; 6]>),
    /// The data was already found to be invalid.
    Invalid(InvalidData),
}

impl ArrayWriteCheck {
    /// The check on the smallest scalar written, given by its bit pattern, with whether it
    /// is above zero worked out from the bits.
    pub fn minimum_scalar(value_bits: u64) -> (r: Self)
        ensures
            r == (ArrayWriteCheck::MinimumScalar { value_bits, positive: !f64_le_zero(value_bits) }),
    {
        ArrayWriteCheck::MinimumScalar { value_bits, positive: !le_zero_bits(value_bits) }
    }
}

/// `n - 1`, or zero for zero.
pub open spec fn sat_dec(n: u64) -> u64 {
    if n == 0 { 0 } else { (n - 1) as u64 }
}

/// `n - 1` on each axis, or zero for zero.
pub open spec fn sat_dec3(c: [u32; 3]) -> [u32; 3] {
    [
        if c[0] == 0 { 0u32 } else { (c[0] - 1) as u32 },
        if c[1] == 0 { 0u32 } else { (c[1] - 1) as u32 },
        if c[2] == 0 { 0u32 } else { (c[2] - 1) as u32 },
    ]
}

/// The first axis where the furthest parent index is outside the block count.
pub open spec fn first_parent_outside(maximums: [[u32; 3]; 3], block_count: [u32; 3]) -> Option<int> {
    if maximums[0][0] >= block_count[0] {
        Some(0)
    } else if maximums[1][1] >= block_count[1] {
        Some(1)
    } else if maximums[2][2] >= block_count[2] {
        Some(2)
    } else {
        None
    }
}

/// The first axis where the furthest sub-block corner is outside the sub-block count.
pub open spec fn first_corner_outside(maximums: [[u32; 6]; 3], count: [u32; 3]) -> Option<int> {
    if maximums[0][3] > count[0] {
        Some(0)
    } else if maximums[1][4] > count[1] {
        Some(1)
    } else if maximums[2][5] > count[2] {
        Some(2)
    } else {
        None
    }
}

/// The outcome of a check against the constraint of the array it was gathered from.
pub open spec fn spec_check(check: ArrayWriteCheck, constraint: Constraint) -> Result<(), Reason> {
    match (check, constraint) {
        (ArrayWriteCheck::MinimumScalar { value_bits, positive }, Constraint::Size) => {
            if !positive {
                Err(Reason::InvalidData(InvalidData::SizeZeroOrLess { value_bits }))
            } else {
                Ok(())
            }
        },
        (ArrayWriteCheck::MaximumIndex(max_index), Constraint::Segment(count))
        | (ArrayWriteCheck::MaximumIndex(max_index), Constraint::Triangle(count))
        | (ArrayWriteCheck::MaximumIndex(max_index), Constraint::Index(count)) => {
            if max_index as u64 >= count {
                Err(Reason::InvalidData(InvalidData::IndexOutOfRange {
                    value: max_index as u64,
                    maximum: sat_dec(count),
                }))
            } else {
                Ok(())
            }
        },
        (ArrayWriteCheck::Subblocks(maximums), Constraint::RegularSubblock { block_count, .. })
        | (ArrayWriteCheck::Subblocks(maximums), Constraint::FreeformSubblock { block_count }) => {
            match first_parent_outside(maximums, block_count) {
                Some(i) => Err(Reason::InvalidData(InvalidData::BlockIndexOutOfRange {
                    value: maximums[i],
                    maximum: sat_dec3(block_count),
                })),
                None => Ok(()),
            }
        },
        (
            ArrayWriteCheck::RegularSubblocksMaximum(maximums),
            Constraint::RegularSubblock { subblock_count, .. },
        ) => {
            match first_corner_outside(maximums, subblock_count) {
                Some(i) => Err(Reason::InvalidData(InvalidData::RegularSubblockOutsideParent {
                    corners: maximums[i],
                    maximum: subblock_count,
                })),
                None => Ok(()),
            }
        },
        (
            ArrayWriteCheck::RegularSubblockCorners(all),
            Constraint::RegularSubblock { subblock_count, mode: Some(mode), .. },
        ) => {
            match first_outside_mode(all@, mode, subblock_count) {
                Some(i) => Err(Reason::InvalidData(InvalidData::RegularSubblockNotInMode {
                    corners: all@[i],
                    mode,
                })),
                None => Ok(()),
            }
        },
        (ArrayWriteCheck::Invalid(inv), _) => Err(Reason::InvalidData(inv)),
        _ => Ok(()),
    }
}

fn sat_dec3_exec(c: [u32; 3]) -> (r: [u32; 3])
    ensures
        r == sat_dec3(c),
{
    let r = [
        if c[0] == 0 { 0 } else { c[0] - 1 },
        if c[1] == 0 { 0 } else { c[1] - 1 },
        if c[2] == 0 { 0 } else { c[2] - 1 },
    ];
    assert(r =~= sat_dec3(c));
    r
}

fn in_mode(mode: SubblockMode, count: [u32; 3], sizes: &Vec<[u32; 3]>, corners: &[u32; 6]) -> (r: bool)
    requires
        forall|s: [u32; 3]| sizes@.contains(s) <==> spec_valid_size(mode, count, s),
    ensures
        r == spec_in_mode(mode, count, *corners),
{
    if !(corners[0] < corners[3] && corners[1] < corners[4] && corners[2] < corners[5]) {
        return false;
    }
    let size = [corners[3] - corners[0], corners[4] - corners[1], corners[5] - corners[2]];
    assert(size =~= corner_size(*corners));
    if !contains_size(sizes, size) {
        return false;
    }
    match mode {
        SubblockMode::Octree => subblock_is_octree_compat(corners),
        SubblockMode::Full => true,
    }
}

impl ArrayWriteCheck {
    /// Runs the check against the constraint of `array`, which must have been validated.
    pub fn check<A: ArrayType>(&self, array: &Array<A>) -> (r: Result<(), Reason>)
        requires
            array.spec_constraint() is Some,
        ensures
            r == spec_check(*self, array.spec_constraint()->0),
    {
        let constraint = array.constraint();
        match (self, constraint) {
            (ArrayWriteCheck::MinimumScalar { value_bits, positive }, Constraint::Size) => {
                if !*positive {
                    return Err(Reason::InvalidData(InvalidData::SizeZeroOrLess { value_bits: *value_bits }));
                }
            },
            (ArrayWriteCheck::MaximumIndex(max_index), Constraint::Segment(count))
            | (ArrayWriteCheck::MaximumIndex(max_index), Constraint::Triangle(count))
            | (ArrayWriteCheck::MaximumIndex(max_index), Constraint::Index(count)) => {
                if *max_index as u64 >= *count {
                    return Err(Reason::InvalidData(InvalidData::IndexOutOfRange {
                        value: *max_index as u64,
                        maximum: if *count == 0 { 0 } else { *count - 1 },
                    }));
                }
            },
            (ArrayWriteCheck::Subblocks(maximums), Constraint::RegularSubblock { block_count, .. })
            | (ArrayWriteCheck::Subblocks(maximums), Constraint::FreeformSubblock { block_count }) => {
                if maximums[0][0] >= block_count[0] {
                    return Err(Reason::InvalidData(InvalidData::BlockIndexOutOfRange {
                        value: maximums[0],
                        maximum: sat_dec3_exec(*block_count),
                    }));
                }
                if maximums[1][1] >= block_count[1] {
                    return Err(Reason::InvalidData(InvalidData::BlockIndexOutOfRange {
                        value: maximums[1],
                        maximum: sat_dec3_exec(*block_count),
                    }));
                }
                if maximums[2][2] >= block_count[2] {
                    return Err(Reason::InvalidData(InvalidData::BlockIndexOutOfRange {
                        value: maximums[2],
                        maximum: sat_dec3_exec(*block_count),
                    }));
                }
            },
            (
                ArrayWriteCheck::RegularSubblocksMaximum(maximums),
                Constraint::RegularSubblock { subblock_count, .. },
            ) => {
                if maximums[0][3] > subblock_count[0] {
                    return Err(Reason::InvalidData(InvalidData::RegularSubblockOutsideParent {
                        corners: maximums[0],
                        maximum: *subblock_count,
                    }));
                }
                if maximums[1][4] > subblock_count[1] {
                    return Err(Reason::InvalidData(InvalidData::RegularSubblockOutsideParent {
                        corners: maximums[1],
                        maximum: *subblock_count,
                    }));
                }
                if maximums[2][5] > subblock_count[2] {
                    return Err(Reason::InvalidData(InvalidData::RegularSubblockOutsideParent {
                        corners: maximums[2],
                        maximum: *subblock_count,
                    }));
                }
            },
            (
                ArrayWriteCheck::RegularSubblockCorners(all),
                Constraint::RegularSubblock { subblock_count, mode: Some(mode), .. },
            ) => {
                let sizes = valid_subblock_sizes(*mode, *subblock_count);
                let mut i: usize = 0;
                #[verifier::loop_isolation(false)]
                while i < all.len()
                    invariant
                        i <= all@.len(),
                        forall|s: [u32; 3]| sizes@.contains(s) <==> spec_valid_size(*mode, *subblock_count, s),
                        first_outside_mode(all@.take(i as int), *mode, *subblock_count) is None,
                    decreases all@.len() - i,
                {
                    assert(all@.take(i as int + 1).drop_last() =~= all@.take(i as int));
                    assert(all@.take(i as int + 1).last() == all@[i as int]);
                    if !in_mode(*mode, *subblock_count, &sizes, &all[i]) {
                        proof {
                            assert(all@.take(i as int + 1).last() == all@[i as int]);
                            assert(!spec_in_mode(*mode, *subblock_count, all@[i as int]));
                            assert(all@.take(i as int + 1).len() == i + 1);
                            assert(first_outside_mode(all@.take(i as int + 1), *mode, *subblock_count) == Some(i as int));
                            lemma_prefix_first_outside(all@, *mode, *subblock_count, i as int + 1);
                            assert(first_outside_mode(all@, *mode, *subblock_count) == Some(i as int));

                        }
                        return Err(Reason::InvalidData(InvalidData::RegularSubblockNotInMode {
                            corners: all[i],
                            mode: *mode,
                        }));
                    }
                    i += 1;
                }
                proof {
                    assert(all@.take(all@.len() as int) =~= all@);
                }
            },
            (ArrayWriteCheck::Invalid(inv), _) => {
                return Err(Reason::InvalidData(*inv));
            },
            _ => {},
        }
        Ok(())
    }
}

/// A first failure in a prefix is the first failure of the whole sequence.
proof fn lemma_prefix_first_outside(all: Seq<[u32; 6]>, mode: SubblockMode, count: [u32; 3], n: int)
    requires
        0 <= n <= all.len(),
        first_outside_mode(all.take(n), mode, count) is Some,
    ensures
        first_outside_mode(all, mode, count) == first_outside_mode(all.take(n), mode, count),
    decreases all.len() - n,
{
    if n < all.len() {
        assert(all.take(n + 1).drop_last() =~= all.take(n));
        lemma_prefix_first_outside(all, mode, count, n + 1);
    } else {
        assert(all.take(n) =~= all);
    }
}


/// The reasons from every failing check, in order.
pub open spec fn check_failures(checks: Seq<ArrayWriteCheck>, constraint: Constraint) -> Seq<Reason>
    decreases checks.len(),
{
    if checks.len() == 0 {
        Seq::empty()
    } else {
        let rest = check_failures(checks.drop_last(), constraint);
        match spec_check(checks.last(), constraint) {
            Err(r) => rest.push(r),
            Ok(_) => rest,
        }
    }
}

impl<T: ArrayType> Array<T> {
    /// Runs every attached check against the array's constraint, returning the reasons for
    /// the ones that fail. Validation must have attached the constraint.
    pub fn run_write_checks(&self) -> (reasons: Vec<Reason>)
        requires
            self.spec_constraint() is Some,
        ensures
            reasons@ == check_failures(self.spec_checks(), self.spec_constraint()->0),
    {
        let checks = self.checks();
        let mut reasons: Vec<Reason> = Vec::new();
        let mut i: usize = 0;
        while i < checks.len()
            invariant
                i <= checks@.len(),
                checks@ == self.spec_checks(),
                self.spec_constraint() is Some,
                reasons@ == check_failures(checks@.take(i as int), self.spec_constraint()->0),
            decreases checks@.len() - i,
        {
            assert(checks@.take(i as int + 1).drop_last() =~= checks@.take(i as int));
            assert(checks@.take(i as int + 1).last() == checks@[i as int]);
            match checks[i].check(self) {
                Err(r) => {
                    reasons.push(r);
                },
                Ok(_) => {},
            }
            i += 1;
        }
        assert(checks@.take(checks@.len() as int) =~= checks@);
        reasons
    }
}

// ---------------------------------------------------------------------------------------
// Visitors that gather checks while data is written

/// The larger of two values.
pub open spec fn max_u32(a: u32, b: u32) -> u32 {
    if a >= b { a } else { b }
}

/// The largest of `init` and every value in `s`.
pub open spec fn fold_max(init: u32, s: Seq<u32>) -> u32
    decreases s.len(),
{
    if s.len() == 0 {
        init
    } else {
        max_u32(fold_max(init, s.drop_last()), s.last())
    }
}

/// Tracks the largest index written.
pub struct MaximumIndex(u32);

impl MaximumIndex {
    /// The largest index seen so far, or zero.
    pub closed spec fn value(&self) -> u32 {
        self.0
    }

    /// Starts with nothing seen.
    pub fn new() -> (m: Self)
        ensures
            m.value() == 0,
    {
        MaximumIndex(0)
    }

    /// Records `value`, returning it unchanged.
    pub fn visit(&mut self, value: u32) -> (r: u32)
        ensures
            r == value,
            final(self).value() == max_u32(old(self).value(), value),
    {
        if value > self.0 {
            self.0 = value;
        }
        value
    }

    /// Records `value` if there is one, returning it unchanged.
    pub fn visit_opt(&mut self, value: Option<u32>) -> (r: Option<u32>)
        ensures
            r == value,
            final(self).value() == match value {
                Some(v) => max_u32(old(self).value(), v),
                None => old(self).value(),
            },
    {
        match value {
            Some(v) => Some(self.visit(v)),
            None => None,
        }
    }

    /// Records every index in `value`, returning it unchanged.
    pub fn visit_array<const N: usize>(&mut self, value: [u32; N]) -> (r: [u32; N])
        ensures
            r == value,
            final(self).value() == fold_max(old(self).value(), value@),
    {
        let mut i: usize = 0;
        while i < N
            invariant
                i <= N,
                value@.len() == N,
                self.value() == fold_max(old(self).value(), value@.take(i as int)),
            decreases N - i,
        {
            assert(value@.take(i as int + 1).drop_last() =~= value@.take(i as int));
            assert(value@.take(i as int + 1).last() == value@[i as int]);
            self.visit(value[i]);
            i += 1;
        }
        assert(value@.take(N as int) =~= value@);
        value
    }

    /// The check to attach to the array.
    pub fn get(self) -> (v: Vec<ArrayWriteCheck>)
        ensures
            v@ == seq![ArrayWriteCheck::MaximumIndex(self.value())],
    {
        vec![ArrayWriteCheck::MaximumIndex(self.0)]
    }
}

/// Number types whose order the checks need.
pub trait NumberType: Copy {
    /// True if `self` is strictly below `other`.
    spec fn spec_less_than(self, other: Self) -> bool;

    /// Returns true if `self` is strictly below `other`.
    fn less_than(&self, other: &Self) -> (b: bool)
        ensures
            b == self.spec_less_than(*other),
    ;
}

impl NumberType for i64 {
    open spec fn spec_less_than(self, other: Self) -> bool {
        self < other
    }

    fn less_than(&self, other: &Self) -> (b: bool) {
        *self < *other
    }
}

/// A double held as its bit pattern, ordered as IEEE 754 orders doubles: NaN is neither
/// below nor above anything.
#[derive(Debug, Clone, Copy, PartialEq, Eq)]
pub struct F64Bits(pub u64);

impl NumberType for F64Bits {
    open spec fn spec_less_than(self, other: Self) -> bool {
        f64_lt(self.0, other.0)
    }

    fn less_than(&self, other: &Self) -> (b: bool) {
        lt_bits(self.0, other.0)
    }
}

/// True if no value in `s` is below the value before it.
pub open spec fn never_decreases<T: NumberType>(s: Seq<T>) -> bool {
    forall|i: int| 1 <= i < s.len() ==> !(#[trigger] s[i]).spec_less_than(s[i - 1])
}

/// Tracks whether boundary values ever decrease.
pub struct IncreasingBoundary<T: NumberType> {
    previous: Option<T>,
    ok: bool,
    seen: Ghost<Seq<T>>,
}

impl<T: NumberType> IncreasingBoundary<T> {
    /// The state is what visiting the values seen gives.
    #[verifier::type_invariant]
    spec fn follows_seen(&self) -> bool {
        (self.previous, self.ok) == boundary_fold(self.seen@)
    }

    /// The last value seen.
    pub closed spec fn previous(&self) -> Option<T> {
        self.previous
    }

    /// False once a value below the one before it has been seen.
    pub closed spec fn is_ok(&self) -> bool {
        self.ok
    }

    /// The values seen, in order.
    pub closed spec fn seen(&self) -> Seq<T> {
        self.seen@
    }

    /// Starts with nothing seen.
    pub fn new() -> (b: Self)
        ensures
            b.previous() is None,
            b.is_ok(),
            b.seen().len() == 0,
    {
        IncreasingBoundary { previous: None, ok: true, seen: Ghost(Seq::empty()) }
    }

    /// Records `value`, returning it unchanged.
    pub fn visit(&mut self, value: T) -> (r: T)
        ensures
            r == value,
            final(self).previous() == Some(value),
            final(self).is_ok() == (old(self).is_ok() && !(old(self).previous() matches Some(p)
                && value.spec_less_than(p))),
            final(self).seen() == old(self).seen().push(value),
    {
        proof {
            use_type_invariant(&*self);
        }
        let mut ok = self.ok;
        if let Some(previous) = self.previous {
            if value.less_than(&previous) {
                ok = false;
            }
        }
        let ghost seen = self.seen@.push(value);
        proof {
            assert(seen.drop_last() =~= self.seen@);
        }
        *self = IncreasingBoundary { previous: Some(value), ok, seen: Ghost(seen) };
        value
    }

    /// The checks to attach to the array: none exactly when the values seen never decrease,
    /// and otherwise the decreasing-boundary failure.
    pub fn get(self) -> (v: Vec<ArrayWriteCheck>)
        ensures
            self.is_ok() == never_decreases(self.seen()),
            self.is_ok() ==> v@.len() == 0,
            !self.is_ok() ==> v@ == seq![ArrayWriteCheck::Invalid(InvalidData::BoundaryDecreases)],
    {
        proof {
            use_type_invariant(&self);
            lemma_increasing_boundary(self.seen@);
        }
        if self.ok {
            Vec::new()
        } else {
            vec![ArrayWriteCheck::Invalid(InvalidData::BoundaryDecreases)]
        }
    }
}

/// The state of an [`IncreasingBoundary`] after visiting `s` in turn from a new one: the last
/// value seen, and false once a value below the one before it has been seen.
pub open spec fn boundary_fold<T: NumberType>(s: Seq<T>) -> (Option<T>, bool)
    decreases s.len(),
{
    if s.len() == 0 {
        (None, true)
    } else {
        let (p, ok) = boundary_fold(s.drop_last());
        (Some(s.last()), ok && !(p matches Some(q) && s.last().spec_less_than(q)))
    }
}

/// Visiting boundary values one by one finds a decrease exactly when the whole sequence
/// is not non-decreasing: the check accepts the values if and only if they never decrease.
pub proof fn lemma_increasing_boundary<T: NumberType>(s: Seq<T>)
    ensures
        boundary_fold(s).1 == never_decreases(s),
        boundary_fold(s).0 == if s.len() == 0 {
            None
        } else {
            Some(s.last())
        },
    decreases s.len(),
{
    if s.len() > 0 {
        let init = s.drop_last();
        lemma_increasing_boundary(init);
        if never_decreases(s) {
            assert forall|i: int| 1 <= i < init.len() implies !(#[trigger] init[i]).spec_less_than(
                init[i - 1],
            ) by {
                assert(init[i] == s[i] && init[i - 1] == s[i - 1]);
            }
            if s.len() > 1 {
                assert(!s[s.len() - 1].spec_less_than(s[s.len() - 2]));
            }
        } else {
            let i = choose|i: int| 1 <= i < s.len() && (#[trigger] s[i]).spec_less_than(s[i - 1]);
            if i < s.len() - 1 {
                assert(init[i] == s[i] && init[i - 1] == s[i - 1]);
                assert(!never_decreases(init));
            }
        }
        if never_decreases(init) && s.len() > 1 && !s.last().spec_less_than(init.last()) {
            assert forall|i: int| 1 <= i < s.len() implies !(#[trigger] s[i]).spec_less_than(
                s[i - 1],
            ) by {
                if i < s.len() - 1 {
                    assert(init[i] == s[i] && init[i - 1] == s[i - 1]);
                }
            }
        }
    }
}

/// The smaller of two doubles given by their bit patterns, as `f64::min` picks it: a NaN
/// gives way to the other value, and of two equal values the first is kept.
pub open spec fn f64_min(a: u64, b: u64) -> u64 {
    if f64_is_nan(b) {
        a
    } else if f64_is_nan(a) {
        b
    } else if f64_lt(b, a) {
        b
    } else {
        a
    }
}

/// Tracks the smallest scalar written, as the bit pattern of a double.
pub struct MinimumScalar(u64);

impl MinimumScalar {
    /// The smallest value seen, starting from infinity.
    pub closed spec fn value(&self) -> u64 {
        self.0
    }

    /// Starts at positive infinity.
    pub fn new() -> (m: Self)
        ensures
            m.value() == 0x7FF0_0000_0000_0000,
    {
        MinimumScalar(0x7FF0_0000_0000_0000)
    }

    /// Records a value given by its bit pattern, returning it unchanged.
    pub fn visit(&mut self, value_bits: u64) -> (r: u64)
        ensures
            r == value_bits,
            final(self).value() == f64_min(old(self).value(), value_bits),
    {
        if !is_nan_bits(value_bits) && (is_nan_bits(self.0) || lt_bits(value_bits, self.0)) {
            self.0 = value_bits;
        }
        value_bits
    }

    /// The check to attach to the array: the smallest value and whether it is above zero.
    pub fn get(self) -> (v: Vec<ArrayWriteCheck>)
        ensures
            v@ == seq![
                ArrayWriteCheck::MinimumScalar {
                    value_bits: self.value(),
                    positive: !f64_le_zero(self.value()),
                },
            ],
    {
        vec![ArrayWriteCheck::minimum_scalar(self.0)]
    }
}

/// The failure, if any, of free-form sub-block corners being written, axis by axis: a
/// minimum not below its maximum is zero size, then a minimum below zero or a maximum above
/// one is outside the parent. Comparisons with NaN pass.
pub open spec fn freeform_write_failure(c: [u64; 6]) -> Option<InvalidData> {
    if f64_ge(c[0], c[3]) {
        Some(InvalidData::FreeformSubblockZeroSize { corner_bits: c })
    } else if f64_lt(c[0], f64_zero()) || f64_lt(f64_one(), c[3]) {
        Some(InvalidData::FreeformSubblockOutsideParent { corner_bits: c })
    } else if f64_ge(c[1], c[4]) {
        Some(InvalidData::FreeformSubblockZeroSize { corner_bits: c })
    } else if f64_lt(c[1], f64_zero()) || f64_lt(f64_one(), c[4]) {
        Some(InvalidData::FreeformSubblockOutsideParent { corner_bits: c })
    } else if f64_ge(c[2], c[5]) {
        Some(InvalidData::FreeformSubblockZeroSize { corner_bits: c })
    } else if f64_lt(c[2], f64_zero()) || f64_lt(f64_one(), c[5]) {
        Some(InvalidData::FreeformSubblockOutsideParent { corner_bits: c })
    } else {
        None
    }
}

/// `a >= b` for doubles; false if either is NaN.
pub open spec fn f64_ge(a: u64, b: u64) -> bool {
    !f64_is_nan(a) && !f64_is_nan(b) && !f64_lt(a, b)
}

/// Tracks the first free-form sub-block corners written that are invalid.
pub struct FreeformCorners(Option<InvalidData>);

impl FreeformCorners {
    /// The first failure seen.
    pub closed spec fn failure(&self) -> Option<InvalidData> {
        self.0
    }

    /// Starts with nothing seen.
    pub fn new() -> (f: Self)
        ensures
            f.failure() is None,
    {
        FreeformCorners(None)
    }

    /// Records a sub-block's corners, given as the bit patterns of doubles.
    pub fn visit(&mut self, corner_bits: [u64; 6])
        ensures
            final(self).failure() == if old(self).failure() is None {
                freeform_write_failure(corner_bits)
            } else {
                old(self).failure()
            },
    {
        if self.0.is_none() {
            let one: u64 = 0x3FF0_0000_0000_0000;
            let mut i: usize = 0;
            while i < 3
                invariant
                    i <= 3,
                    one == f64_one(),
                    self.0 is None,
                    old(self).failure() is None,
                    forall|j: int| 0 <= j < i ==> #[trigger] freeform_write_ok(corner_bits, j),
                decreases 3 - i,
            {
                proof {
                    if i > 0 {
                        assert(freeform_write_ok(corner_bits, 0));
                    }
                    if i > 1 {
                        assert(freeform_write_ok(corner_bits, 1));
                    }
                }
                let a = corner_bits[i];
                let b = corner_bits[i + 3];
                proof {
                    if i == 0 {
                        assert(a == corner_bits[0] && b == corner_bits[3]);
                    } else if i == 1 {
                        assert(a == corner_bits[1] && b == corner_bits[4]);
                    } else {
                        assert(a == corner_bits[2] && b == corner_bits[5]);
                    }
                }
                if !is_nan_bits(a) && !is_nan_bits(b) && !lt_bits(a, b) {
                    self.0 = Some(InvalidData::FreeformSubblockZeroSize { corner_bits });
                    return;
                }
                if lt_bits(a, 0) || lt_bits(one, b) {
                    self.0 = Some(InvalidData::FreeformSubblockOutsideParent { corner_bits });
                    return;
                }
                i += 1;
            }
            assert(freeform_write_ok(corner_bits, 0));
            assert(freeform_write_ok(corner_bits, 1));
            assert(freeform_write_ok(corner_bits, 2));
        }
    }

    /// The checks to attach to the array: the failure, if one was seen.
    pub fn get(self) -> (v: Vec<ArrayWriteCheck>)
        ensures
            self.failure() is None ==> v@.len() == 0,
            self.failure() matches Some(f) ==> v@ == seq![ArrayWriteCheck::Invalid(f)],
    {
        match self.0 {
            Some(f) => vec![ArrayWriteCheck::Invalid(f)],
            None => Vec::new(),
        }
    }
}

/// True if a free-form sub-block's corners, given as the bit patterns of doubles, have a
/// minimum below the maximum on axis `j`, where neither is NaN.
pub open spec fn corners_zero_size(c: [u64; 6], j: int) -> bool {
    !f64_is_nan(c[j]) && !f64_is_nan(c[j + 3]) && !f64_lt(c[j], c[j + 3])
}

/// True if a free-form sub-block's corners leave the unit parent block on axis `j`: the
/// minimum is below zero or the maximum above one.
pub open spec fn corners_outside(c: [u64; 6], j: int) -> bool {
    f64_lt(c[j], f64_zero()) || f64_lt(f64_one(), c[j + 3])
}

/// True if a free-form sub-block's corners have a size and lie inside the parent on axis
/// `j`.
pub open spec fn corners_sound(c: [u64; 6], j: int) -> bool {
    !corners_zero_size(c, j) && !corners_outside(c, j)
}

/// What the free-form corner check made while writing records: nothing exactly when every
/// axis has a size and lies inside the parent, treating the three axes alike; otherwise a
/// zero-size failure only when some axis has no size, and an outside-the-parent failure only
/// when some axis leaves the parent, each carrying the corners.
pub proof fn lemma_freeform_write_failure(c: [u64; 6])
    ensures
        freeform_write_failure(c) is None <==> forall|j: int|
            0 <= j < 3 ==> #[trigger] corners_sound(c, j),
        freeform_write_failure(c) matches Some(f) ==> {
            ||| f == InvalidData::FreeformSubblockZeroSize { corner_bits: c } && exists|j: int|
                0 <= j < 3 && #[trigger] corners_zero_size(c, j)
            ||| f == InvalidData::FreeformSubblockOutsideParent { corner_bits: c } && exists|j: int|
                0 <= j < 3 && #[trigger] corners_outside(c, j)
        },
{
    if freeform_write_failure(c) is None {
        assert forall|j: int| 0 <= j < 3 implies #[trigger] corners_sound(c, j) by {
            if j == 0 {
            } else if j == 1 {
            } else {
            }
        }
    } else {
        if forall|j: int| 0 <= j < 3 ==> #[trigger] corners_sound(c, j) {
            assert(corners_sound(c, 0));
            assert(corners_sound(c, 1));
            assert(corners_sound(c, 2));
        }
        if corners_zero_size(c, 0) || corners_outside(c, 0) {
            assert(corners_zero_size(c, 0) || corners_outside(c, 0));
        } else if corners_zero_size(c, 1) || corners_outside(c, 1) {
            assert(corners_zero_size(c, 1) || corners_outside(c, 1));
        } else {
            assert(corners_zero_size(c, 2) || corners_outside(c, 2));
        }
    }
}

/// True if corners being written pass both checks on axis `j`.
pub open spec fn freeform_write_ok(c: [u64; 6], j: int) -> bool {
    &&& !f64_ge(c[j], c[j + 3])
    &&& !(f64_lt(c[j], f64_zero()) || f64_lt(f64_one(), c[j + 3]))
}

/// The parents a new [`ParentIndices`] keeps after
/// visiting `s` in turn.
pub open spec fn parents_maximum(s: Seq<[u32; 3]>) -> [[u32; 3]; 3]
    decreases s.len(),
{
    if s.len() == 0 {
        [[0u32, 0u32, 0u32], [0u32, 0u32, 0u32], [0u32, 0u32, 0u32]]
    } else {
        parent_step(parents_maximum(s.drop_last()), s.last())
    }
}

/// The furthest corners a new [`RegularCorners`] keeps
/// after visiting `s` in turn.
pub open spec fn corners_maximum(s: Seq<[u32; 6]>) -> [[u32; 6]; 3]
    decreases s.len(),
{
    if s.len() == 0 {
        [
            [0u32, 0u32, 0u32, 0u32, 0u32, 0u32],
            [0u32, 0u32, 0u32, 0u32, 0u32, 0u32],
            [0u32, 0u32, 0u32, 0u32, 0u32, 0u32],
        ]
    } else {
        corner_step(corners_maximum(s.drop_last()), s.last())
    }
}

/// The distinct corner sets a new [`RegularCorners`]
/// keeps after visiting `s` in turn, in the order first seen.
pub open spec fn distinct_corners(s: Seq<[u32; 6]>) -> Seq<[u32; 6]>
    decreases s.len(),
{
    if s.len() == 0 {
        Seq::empty()
    } else {
        let kept = distinct_corners(s.drop_last());
        if kept.contains(s.last()) {
            kept
        } else {
            kept.push(s.last())
        }
    }
}

/// One step of [`ParentIndices`]: each axis keeps the parent that reaches furthest along it,
/// preferring the earlier one on a tie.
pub open spec fn parent_step(maximums: [[u32; 3]; 3], parent: [u32; 3]) -> [[u32; 3]; 3] {
    [
        if parent[0] > maximums[0][0] { parent } else { maximums[0] },
        if parent[1] > maximums[1][1] { parent } else { maximums[1] },
        if parent[2] > maximums[2][2] { parent } else { maximums[2] },
    ]
}

/// Tracks, for each axis, the parent block index that reaches furthest along that axis.
pub struct ParentIndices {
    maximums: [[u32; 3]; 3],
    seen: Ghost<Seq<[u32; 3]>>,
}

impl ParentIndices {
    /// The parents kept are those that visiting the parents seen keeps.
    #[verifier::type_invariant]
    spec fn follows_seen(&self) -> bool {
        self.maximums == parents_maximum(self.seen@)
    }

    /// The parents kept so far.
    pub closed spec fn maximums(&self) -> [[u32; 3]; 3] {
        self.maximums
    }

    /// The parent block indices seen, in order.
    pub closed spec fn seen(&self) -> Seq<[u32; 3]> {
        self.seen@
    }

    /// Starts with all-zero parents.
    pub fn new() -> (p: Self)
        ensures
            forall|i: int, j: int| 0 <= i < 3 && 0 <= j < 3 ==> p.maximums()[i][j] == 0,
            p.seen().len() == 0,
    {
        let m = [[0u32, 0, 0], [0u32, 0, 0], [0u32, 0, 0]];
        proof {
            let z = [0u32, 0u32, 0u32];
            assert(m[0] =~= z && m[1] =~= z && m[2] =~= z);
            assert(m =~= parents_maximum(Seq::<[u32; 3]>::empty()));
        }
        ParentIndices { maximums: m, seen: Ghost(Seq::empty()) }
    }

    /// Records a parent block index.
    pub fn visit(&mut self, value: [u32; 3])
        ensures
            final(self).maximums() == parent_step(old(self).maximums(), value),
            final(self).seen() == old(self).seen().push(value),
    {
        proof {
            use_type_invariant(&*self);
        }
        let m = self.maximums;
        let a = if value[0] > m[0][0] { value } else { m[0] };
        let b = if value[1] > m[1][1] { value } else { m[1] };
        let c = if value[2] > m[2][2] { value } else { m[2] };
        let ghost seen = self.seen@.push(value);
        proof {
            assert(seen.drop_last() =~= self.seen@);
            assert([a, b, c] =~= parent_step(m, value));
        }
        *self = ParentIndices { maximums: [a, b, c], seen: Ghost(seen) };
    }

    /// The check to attach to the array: the parents kept after visiting every parent seen.
    /// For each axis, the parent kept reaches at least as far along it as every parent seen,
    /// and is the first parent seen that reaches that far, or all zeros while none has gone
    /// past zero on that axis.
    pub fn get(self) -> (v: Vec<ArrayWriteCheck>)
        ensures
            v@ == seq![ArrayWriteCheck::Subblocks(self.maximums())],
            self.maximums() == parents_maximum(self.seen()),
            forall|a: int, i: int|
                0 <= a < 3 && 0 <= i < self.seen().len() ==> #[trigger] self.seen()[i][a]
                    <= self.maximums()[a][a],
            forall|a: int|
                0 <= a < 3 && #[trigger] self.maximums()[a][a] == 0 ==> self.maximums()[a] == [
                    0u32,
                    0u32,
                    0u32,
                ],
            forall|a: int|
                0 <= a < 3 && #[trigger] self.maximums()[a][a] > 0 ==> exists|k: int|
                    0 <= k < self.seen().len() && self.seen()[k] == self.maximums()[a] && forall|
                        j: int,
                    |
                        0 <= j < k ==> self.seen()[j][a] < self.maximums()[a][a],
    {
        proof {
            use_type_invariant(&self);
            assert forall|a: int| 0 <= a < 3 implies {
                &&& forall|i: int| 0 <= i < self.seen().len() ==> #[trigger] self.seen()[i][a]
                    <= self.maximums()[a][a]
                &&& self.maximums()[a][a] == 0 ==> self.maximums()[a] == [0u32, 0u32, 0u32]
                &&& self.maximums()[a][a] > 0 ==> exists|k: int|
                    0 <= k < self.seen().len() && self.seen()[k] == self.maximums()[a] && forall|
                        j: int,
                    |
                        0 <= j < k ==> self.seen()[j][a] < self.maximums()[a][a]
            } by {
                let sn = self.seen();
                let m = self.maximums();
                assert(m == parents_maximum(sn));
                crate::read_checks::lemma_parents_maximum_axis(sn, a);
                crate::read_checks::lemma_parents_maximum_first(sn, a);
                if m[a][a] > 0 {
                    let k = choose|k: int|
                        0 <= k < sn.len() && sn[k] == m[a] && forall|j: int|
                            0 <= j < k ==> sn[j][a] < m[a][a];
                    assert(0 <= k < sn.len() && sn[k] == m[a]);
                }
            }
        }
        vec![ArrayWriteCheck::Subblocks(self.maximums)]
    }
}

/// One step of the furthest-corner tracking in [`RegularCorners`].
pub open spec fn corner_step(maximums: [[u32; 6]; 3], corners: [u32; 6]) -> [[u32; 6]; 3] {
    [
        if corners[3] > maximums[0][3] { corners } else { maximums[0] },
        if corners[4] > maximums[1][4] { corners } else { maximums[1] },
        if corners[5] > maximums[2][5] { corners } else { maximums[2] },
    ]
}

/// The first corner set without a positive size is the first one in the run that lacks it,
/// and there is none exactly when every corner set has a positive size.
pub proof fn lemma_first_not_positive(s: Seq<[u32; 6]>)
    ensures
        first_not_positive(s) is None <==> forall|i: int|
            0 <= i < s.len() ==> positive_size(#[trigger] s[i]),
        first_not_positive(s) matches Some(c) ==> exists|k: int|
            0 <= k < s.len() && s[k] == c && !positive_size(c) && forall|j: int|
                0 <= j < k ==> positive_size(#[trigger] s[j]),
    decreases s.len(),
{
    if s.len() > 0 {
        let init = s.drop_last();
        lemma_first_not_positive(init);
        assert forall|i: int| 0 <= i < init.len() implies init[i] == s[i] by {}
        if first_not_positive(init) is None && positive_size(s.last()) {
            assert forall|i: int| 0 <= i < s.len() implies positive_size(#[trigger] s[i]) by {
                if i < s.len() - 1 {
                    assert(init[i] == s[i]);
                }
            }
        }
        if first_not_positive(init) is None && !positive_size(s.last()) {
            assert(s[s.len() - 1] == s.last());
            assert forall|j: int| 0 <= j < s.len() - 1 implies positive_size(#[trigger] s[j]) by {
                assert(init[j] == s[j]);
            }
        }
        if let Some(c) = first_not_positive(init) {
            let k = choose|k: int|
                0 <= k < init.len() && init[k] == c && !positive_size(c) && forall|j: int|
                    0 <= j < k ==> positive_size(#[trigger] init[j]);
            assert(s[k] == c);
            assert forall|j: int| 0 <= j < k implies positive_size(#[trigger] s[j]) by {
                assert(init[j] == s[j]);
            }
            assert(!positive_size(s[k]));
        }
    }
}

/// Tracks regular sub-block corners: the furthest corners on each axis, every distinct
/// corner set, and the first corner set with zero or negative size.
pub struct RegularCorners {
    maximum_corners: [[u32; 6]; 3],
    corners: Vec<[u32; 6]>,
    invalid_size: Option<[u32; 6]>,
    seen: Ghost<Seq<[u32; 6]>>,
}

/// The first corner set in `s` without a positive size, if any.
pub open spec fn first_not_positive(s: Seq<[u32; 6]>) -> Option<[u32; 6]>
    decreases s.len(),
{
    if s.len() == 0 {
        None
    } else {
        match first_not_positive(s.drop_last()) {
            Some(c) => Some(c),
            None => if !positive_size(s.last()) {
                Some(s.last())
            } else {
                None
            },
        }
    }
}

fn same_corners(a: &[u32; 6], b: &[u32; 6]) -> (r: bool)
    ensures
        r == (*a == *b),
{
    let r = a[0] == b[0] && a[1] == b[1] && a[2] == b[2] && a[3] == b[3] && a[4] == b[4]
        && a[5] == b[5];
    proof {
        if r {
            assert(*a =~= *b);
        }
    }
    r
}

fn contains_corners(all: &Vec<[u32; 6]>, c: &[u32; 6]) -> (r: bool)
    ensures
        r == all@.contains(*c),
{
    let mut i: usize = 0;
    while i < all.len()
        invariant
            i <= all@.len(),
            forall|j: int| 0 <= j < i ==> all@[j] != *c,
        decreases all@.len() - i,
    {
        if same_corners(&all[i], c) {
            return true;
        }
        i += 1;
    }
    false
}

impl RegularCorners {
    /// What is kept is what visiting the corner sets seen keeps, and no corner set is kept
    /// twice.
    #[verifier::type_invariant]
    spec fn follows_seen(&self) -> bool {
        &&& self.maximum_corners == corners_maximum(self.seen@)
        &&& self.corners@ == distinct_corners(self.seen@)
        &&& self.invalid_size == first_not_positive(self.seen@)
        &&& self.corners@.no_duplicates()
    }

    /// The furthest corners on each axis.
    pub closed spec fn maximum_corners(&self) -> [[u32; 6]; 3] {
        self.maximum_corners
    }

    /// Every distinct corner set seen, in the order first seen.
    pub closed spec fn corners(&self) -> Seq<[u32; 6]> {
        self.corners@
    }

    /// The first corner set seen with zero or negative size.
    pub closed spec fn invalid_size(&self) -> Option<[u32; 6]> {
        self.invalid_size
    }

    /// The corner sets seen, in order.
    pub closed spec fn seen(&self) -> Seq<[u32; 6]> {
        self.seen@
    }

    /// Starts with nothing seen.
    pub fn new() -> (r: Self)
        ensures
            forall|i: int, j: int| 0 <= i < 3 && 0 <= j < 6 ==> r.maximum_corners()[i][j] == 0,
            r.corners().len() == 0,
            r.invalid_size() is None,
            r.seen().len() == 0,
    {
        let m = [[0u32, 0, 0, 0, 0, 0], [0u32, 0, 0, 0, 0, 0], [0u32, 0, 0, 0, 0, 0]];
        proof {
            let z = [0u32, 0u32, 0u32, 0u32, 0u32, 0u32];
            assert(m[0] =~= z && m[1] =~= z && m[2] =~= z);
            assert(m =~= corners_maximum(Seq::<[u32; 6]>::empty()));
        }
        let corners: Vec<[u32; 6]> = Vec::new();
        assert(corners@ =~= distinct_corners(Seq::<[u32; 6]>::empty()));
        RegularCorners { maximum_corners: m, corners, invalid_size: None, seen: Ghost(Seq::empty()) }
    }

    /// Records a sub-block's corners.
    pub fn visit(&mut self, corners: [u32; 6])
        ensures
            final(self).maximum_corners() == corner_step(old(self).maximum_corners(), corners),
            final(self).corners() == if old(self).corners().contains(corners) {
                old(self).corners()
            } else {
                old(self).corners().push(corners)
            },
            final(self).invalid_size() == if old(self).invalid_size() is None && !positive_size(corners) {
                Some(corners)
            } else {
                old(self).invalid_size()
            },
            final(self).corners().no_duplicates(),
            final(self).seen() == old(self).seen().push(corners),
    {
        let mut me = RegularCorners::new();
        std::mem::swap(&mut me, self);
        proof {
            use_type_invariant(&me);
        }
        let RegularCorners { maximum_corners: m, corners: mut all, invalid_size, seen } = me;
        let ghost seen2 = seen@.push(corners);
        proof {
            assert(seen2.drop_last() =~= seen@);
            assert(seen2.last() == corners);
        }
        if !contains_corners(&all, &corners) {
            let ghost before = all@;
            all.push(corners);
            proof {
                assert forall|i: int, j: int| 0 <= i < j < all@.len() implies all@[i] != all@[j] by {
                    if j == all@.len() - 1 {
                        assert(before[i] == all@[i]);
                    }
                }
            }
        }
        let a = if corners[3] > m[0][3] { corners } else { m[0] };
        let b = if corners[4] > m[1][4] { corners } else { m[1] };
        let c = if corners[5] > m[2][5] { corners } else { m[2] };
        let maximum_corners = [a, b, c];
        assert(maximum_corners =~= corner_step(m, corners));
        let mut invalid = invalid_size;
        if invalid.is_none() {
            if !(corners[0] < corners[3] && corners[1] < corners[4] && corners[2] < corners[5]) {
                invalid = Some(corners);
            }
        }
        *self = RegularCorners {
            maximum_corners,
            corners: all,
            invalid_size: invalid,
            seen: Ghost(seen2),
        };
    }

    /// The checks to attach to the array: the furthest corners, the distinct corners, and the
    /// zero-size failure if one was seen, all as visiting the corner sets seen gives them.
    pub fn get(self) -> (v: Vec<ArrayWriteCheck>)
        ensures
            self.maximum_corners() == corners_maximum(self.seen()),
            self.corners() == distinct_corners(self.seen()),
            self.invalid_size() == first_not_positive(self.seen()),
            v@.len() == if self.invalid_size() is Some { 3int } else { 2int },
            v@[0] == ArrayWriteCheck::RegularSubblocksMaximum(self.maximum_corners()),
            v@[1] matches ArrayWriteCheck::RegularSubblockCorners(all) && all@ == self.corners()
                && all@.no_duplicates(),
            self.invalid_size() matches Some(c) ==> v@[2] == ArrayWriteCheck::Invalid(
                InvalidData::RegularSubblockZeroSize { corners: c },
            ),
            forall|c: [u32; 6]| self.corners().contains(c) <==> self.seen().contains(c),
            forall|a: int, i: int|
                0 <= a < 3 && 0 <= i < self.seen().len() ==> #[trigger] self.seen()[i][a + 3]
                    <= self.maximum_corners()[a][a + 3],
            forall|a: int|
                0 <= a < 3 && #[trigger] self.maximum_corners()[a][a + 3] == 0
                    ==> self.maximum_corners()[a] == [0u32, 0u32, 0u32, 0u32, 0u32, 0u32],
            forall|a: int|
                0 <= a < 3 && #[trigger] self.maximum_corners()[a][a + 3] > 0 ==> exists|k: int|
                    0 <= k < self.seen().len() && self.seen()[k] == self.maximum_corners()[a]
                        && forall|j: int|
                        0 <= j < k ==> self.seen()[j][a + 3] < self.maximum_corners()[a][a + 3],
            self.invalid_size() is None <==> forall|i: int|
                0 <= i < self.seen().len() ==> positive_size(#[trigger] self.seen()[i]),
            self.invalid_size() matches Some(c) ==> exists|k: int|
                0 <= k < self.seen().len() && self.seen()[k] == c && !positive_size(c) && forall|
                    j: int,
                |
                    0 <= j < k ==> positive_size(#[trigger] self.seen()[j]),
    {
        proof {
            use_type_invariant(&self);
            let sn = self.seen();
            let m = self.maximum_corners();
            crate::read_checks::lemma_distinct_corners_contains(sn);
            lemma_first_not_positive(sn);
            assert forall|a: int| 0 <= a < 3 implies {
                &&& forall|i: int| 0 <= i < sn.len() ==> #[trigger] sn[i][a + 3] <= m[a][a + 3]
                &&& m[a][a + 3] == 0 ==> m[a] == [0u32, 0u32, 0u32, 0u32, 0u32, 0u32]
                &&& m[a][a + 3] > 0 ==> exists|k: int|
                    0 <= k < sn.len() && sn[k] == m[a] && forall|j: int|
                        0 <= j < k ==> sn[j][a + 3] < m[a][a + 3]
            } by {
                assert(m == corners_maximum(sn));
                crate::read_checks::lemma_corners_maximum_axis(sn, a);
                crate::read_checks::lemma_corners_maximum_first(sn, a);
                if m[a][a + 3] > 0 {
                    let k = choose|k: int|
                        0 <= k < sn.len() && sn[k] == m[a] && forall|j: int|
                            0 <= j < k ==> sn[j][a + 3] < m[a][a + 3];
                    assert(0 <= k < sn.len() && sn[k] == m[a]);
                }
            }
        }
        let RegularCorners { maximum_corners, corners, invalid_size, seen } = self;
        let mut out = Vec::new();
        out.push(ArrayWriteCheck::RegularSubblocksMaximum(maximum_corners));
        out.push(ArrayWriteCheck::RegularSubblockCorners(corners));
        if let Some(corners) = invalid_size {
            out.push(ArrayWriteCheck::Invalid(InvalidData::RegularSubblockZeroSize { corners }));
        }
        out
    }
}

} // verus!
