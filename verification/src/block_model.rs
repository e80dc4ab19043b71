//! Sub-block layout rules for block models.

use vstd::prelude::*;

use crate::attribute::Location;

verus! {

/// A optional mode for regular sub-blocks.
#[derive(Debug, Clone, Copy, PartialEq, Eq, Hash, Structural)]
pub enum SubblockMode {
    /// Sub-blocks form a octree-like inside the parent block.
    ///
    /// To form this structure, cut the parent block in half in all directions to create
    /// eight child blocks. Repeat that cut for some or all of those children, and continue
    /// doing that until the limit on sub-block count is reached or until the sub-blocks
    /// accurately model the inputs.
    ///
    /// The sub-block count must be a power of two in each direction. This isn't strictly an
    /// octree because the sub-block count doesn't have to be the *same* in all directions.
    Octree,
    /// Parent blocks are fully divided or not divided at all.
    Full,
}

/// The number of cells of a grid with these counts along each axis.
pub open spec fn cells3(count: [u32; 3]) -> int {
    count[0] * count[1] * count[2]
}

/// The number of cell corners of a grid with these counts along each axis.
pub open spec fn corners3(count: [u32; 3]) -> int {
    (count[0] + 1) * (count[1] + 1) * (count[2] + 1)
}

/// The number of cells of a 2D grid.
pub open spec fn cells2(count: [u32; 2]) -> int {
    count[0] * count[1]
}

/// The number of cell corners of a 2D grid.
pub open spec fn corners2(count: [u32; 2]) -> int {
    (count[0] + 1) * (count[1] + 1)
}

/// Returns the number of cells of a 3D grid, or `None` if it doesn't fit in a `u64`.
pub fn flat_count3(count: [u32; 3]) -> (r: Option<u64>)
    ensures
        r is Some <==> cells3(count) <= u64::MAX,
        r matches Some(n) ==> n == cells3(count),
{
    let a = count[0] as u64;
    let b = count[1] as u64;
    let c = count[2] as u64;
    assert(a * b <= 0xFFFF_FFFFint * 0xFFFF_FFFFint) by (nonlinear_arith)
        requires
            a <= 0xFFFF_FFFF,
            b <= 0xFFFF_FFFF,
    ;
    let ab = a * b;
    assert(cells3(count) == ab * c);
    ab.checked_mul(c)
}

/// Returns the number of cell corners of a 3D grid, or `None` if it doesn't fit in a `u64`.
pub fn flat_corner_count3(count: [u32; 3]) -> (r: Option<u64>)
    ensures
        r is Some <==> corners3(count) <= u64::MAX,
        r matches Some(n) ==> n == corners3(count),
{
    let a = count[0] as u64 + 1;
    let b = count[1] as u64 + 1;
    let c = count[2] as u64 + 1;
    assert(corners3(count) == a * b * c);
    match a.checked_mul(b) {
        Some(ab) => ab.checked_mul(c),
        None => {
            assert(a * b * c >= a * b) by (nonlinear_arith)
                requires
                    c >= 1,
                    a >= 1,
                    b >= 1,
            ;
            None
        },
    }
}

/// Returns the number of cells of a 2D grid.
pub fn flat_count2(count: [u32; 2]) -> (r: u64)
    ensures
        r == cells2(count),
{
    let a = count[0] as u64;
    let b = count[1] as u64;
    assert(a * b <= 0xFFFF_FFFFint * 0xFFFF_FFFFint) by (nonlinear_arith)
        requires
            a <= 0xFFFF_FFFF,
            b <= 0xFFFF_FFFF,
    ;
    a * b
}

/// Returns the number of cell corners of a 2D grid, or `None` if it doesn't fit in a `u64`.
pub fn flat_corner_count2(count: [u32; 2]) -> (r: Option<u64>)
    ensures
        r is Some <==> corners2(count) <= u64::MAX,
        r matches Some(n) ==> n == corners2(count),
{
    let a = count[0] as u64 + 1;
    let b = count[1] as u64 + 1;
    a.checked_mul(b)
}

/// The number of attribute values a block model needs at a location: one per block corner,
/// one per parent block, or one per sub-block where there are sub-blocks.
pub open spec fn block_model_items(count: [u32; 3], subblocks: Option<u64>, location: Location) -> Option<int> {
    match location {
        Location::Vertices => Some(corners3(count)),
        Location::Primitives => Some(cells3(count)),
        Location::Subblocks => match subblocks {
            Some(n) => Some(n as int),
            None => None,
        },
        _ => None,
    }
}

/// Returns the number of attribute values a block model with this block count, and this
/// many sub-blocks if it has them, needs at `location`, or `None` where attributes can't
/// attach. The number of block corners must fit in a `u64`.
pub fn block_model_location_len(count: [u32; 3], subblocks: Option<u64>, location: Location) -> (r: Option<u64>)
    requires
        corners3(count) <= u64::MAX,
    ensures
        match block_model_items(count, subblocks, location) {
            Some(n) => r matches Some(v) && v == n,
            None => r is None,
        },
{
    match location {
        Location::Vertices => flat_corner_count3(count),
        Location::Primitives => {
            assert(cells3(count) <= corners3(count)) by (nonlinear_arith)
                requires
                    count[0] >= 0,
                    count[1] >= 0,
                    count[2] >= 0,
            ;
            flat_count3(count)
        },
        Location::Subblocks => subblocks,
        _ => None,
    }
}

/// The number of attribute values a grid surface needs at a location: one per grid corner
/// or one per cell.
pub open spec fn grid_surface_items(count: [u32; 2], location: Location) -> Option<int> {
    match location {
        Location::Vertices => Some(corners2(count)),
        Location::Primitives => Some(cells2(count)),
        _ => None,
    }
}

/// Returns the number of attribute values a grid surface with this cell count needs at
/// `location`, or `None` where attributes can't attach. The number of grid corners must fit
/// in a `u64`.
pub fn grid_surface_location_len(count: [u32; 2], location: Location) -> (r: Option<u64>)
    requires
        corners2(count) <= u64::MAX,
    ensures
        match grid_surface_items(count, location) {
            Some(n) => r matches Some(v) && v == n,
            None => r is None,
        },
{
    match location {
        Location::Vertices => flat_corner_count2(count),
        Location::Primitives => Some(flat_count2(count)),
        _ => None,
    }
}

} // verus!
