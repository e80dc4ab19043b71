//! The kinds of geometry an element can have, and where attributes can attach to each.

use vstd::prelude::*;

use crate::attribute::Location;
use crate::block_model::{block_model_items, grid_surface_items};

verus! {

/// The kind of an element's geometry; block models are told apart by whether they have
/// sub-blocks.
#[derive(Debug, Clone, Copy, PartialEq, Eq, Structural)]
pub enum GeometryKind {
    PointSet,
    LineSet,
    Surface,
    GridSurface,
    Composite,
    BlockModel,
    SubblockedBlockModel,
}

impl GeometryKind {
    /// The locations where attributes can attach to this kind of geometry. Block models take
    /// values on their corners and blocks, and, with sub-blocks, on the sub-blocks too.
    pub open spec fn spec_valid_locations(self) -> Seq<Location> {
        match self {
            GeometryKind::PointSet => seq![Location::Vertices],
            GeometryKind::LineSet | GeometryKind::Surface | GeometryKind::GridSurface => seq![
                Location::Vertices,
                Location::Primitives,
            ],
            GeometryKind::Composite => seq![Location::Elements],
            GeometryKind::SubblockedBlockModel => seq![
                Location::Vertices,
                Location::Primitives,
                Location::Subblocks,
            ],
            GeometryKind::BlockModel => seq![Location::Vertices, Location::Primitives],
        }
    }

    /// Returns the locations where attributes can attach to this kind of geometry.
    pub fn valid_locations(&self) -> (r: Vec<Location>)
        ensures
            r@ == self.spec_valid_locations(),
    {
        match self {
            GeometryKind::PointSet => vec![Location::Vertices],
            GeometryKind::LineSet | GeometryKind::Surface | GeometryKind::GridSurface => vec![
                Location::Vertices,
                Location::Primitives,
            ],
            GeometryKind::Composite => vec![Location::Elements],
            GeometryKind::SubblockedBlockModel => vec![
                Location::Vertices,
                Location::Primitives,
                Location::Subblocks,
            ],
            GeometryKind::BlockModel => vec![Location::Vertices, Location::Primitives],
        }
    }

    /// The name of this kind of geometry, as problems report it.
    pub open spec fn spec_name(self) -> Seq<char> {
        match self {
            GeometryKind::PointSet => "PointSet"@,
            GeometryKind::LineSet => "LineSet"@,
            GeometryKind::Surface => "Surface"@,
            GeometryKind::GridSurface => "GridSurface"@,
            GeometryKind::Composite => "Composite"@,
            GeometryKind::BlockModel => "BlockModel"@,
            GeometryKind::SubblockedBlockModel => "BlockModel(sub-blocked)"@,
        }
    }

    /// Returns the name of this kind of geometry.
    pub fn name(&self) -> (r: &'static str)
        ensures
            r@ == self.spec_name(),
    {
        match self {
            GeometryKind::PointSet => "PointSet",
            GeometryKind::LineSet => "LineSet",
            GeometryKind::Surface => "Surface",
            GeometryKind::GridSurface => "GridSurface",
            GeometryKind::Composite => "Composite",
            GeometryKind::BlockModel => "BlockModel",
            GeometryKind::SubblockedBlockModel => "BlockModel(sub-blocked)",
        }
    }
}

/// Where attributes can attach to each kind of geometry: vertices on everything but a
/// composite; primitives (segments, triangles, grid cells, blocks) on everything that has
/// them, which is all but point sets and composites; sub-blocks only on sub-blocked block
/// models; elements only on composites; never the projected or category locations, which
/// belong to attributes themselves. No location is listed twice.
pub proof fn lemma_valid_locations(kind: GeometryKind)
    ensures
        kind.spec_valid_locations().contains(Location::Vertices) <==> kind != GeometryKind::Composite,
        kind.spec_valid_locations().contains(Location::Primitives) <==> (kind
            != GeometryKind::PointSet && kind != GeometryKind::Composite),
        kind.spec_valid_locations().contains(Location::Subblocks) <==> kind
            == GeometryKind::SubblockedBlockModel,
        kind.spec_valid_locations().contains(Location::Elements) <==> kind
            == GeometryKind::Composite,
        !kind.spec_valid_locations().contains(Location::Projected),
        !kind.spec_valid_locations().contains(Location::Categories),
        kind.spec_valid_locations().no_duplicates(),
{
    let v = kind.spec_valid_locations();
    lemma_contains_short(v, Location::Vertices);
    lemma_contains_short(v, Location::Primitives);
    lemma_contains_short(v, Location::Subblocks);
    lemma_contains_short(v, Location::Elements);
    lemma_contains_short(v, Location::Projected);
    lemma_contains_short(v, Location::Categories);
    assert forall|i: int, j: int| 0 <= i < v.len() && 0 <= j < v.len() && i != j implies v[i]
        != v[j] by {
        assert(i == 0 || i == 1 || i == 2);
        assert(j == 0 || j == 1 || j == 2);
    }
}

proof fn lemma_contains_short(s: Seq<Location>, x: Location)
    requires
        s.len() <= 3,
    ensures
        s.contains(x) <==> ((s.len() > 0 && s[0] == x) || (s.len() > 1 && s[1] == x) || (s.len()
            > 2 && s[2] == x)),
{
    if s.contains(x) {
        let i = choose|i: int| 0 <= i < s.len() && s[i] == x;
        assert(i == 0 || i == 1 || i == 2);
    }
    if s.len() > 0 && s[0] == x {
        assert(s.contains(x));
    }
    if s.len() > 1 && s[1] == x {
        assert(s.contains(x));
    }
    if s.len() > 2 && s[2] == x {
        assert(s.contains(x));
    }
}

/// On a block model, attributes can attach exactly where it has a number of items: block
/// corners, blocks, and, when it has sub-blocks, sub-blocks.
pub proof fn lemma_block_model_locations(count: [u32; 3], subblocks: Option<u64>, location: Location)
    requires
        location != Location::Projected,
        location != Location::Categories,
    ensures
        (if subblocks is Some {
            GeometryKind::SubblockedBlockModel
        } else {
            GeometryKind::BlockModel
        }).spec_valid_locations().contains(location) <==> block_model_items(
            count,
            subblocks,
            location,
        ) is Some,
{
    lemma_valid_locations(GeometryKind::SubblockedBlockModel);
    lemma_valid_locations(GeometryKind::BlockModel);
}

/// On a grid surface, attributes can attach exactly where it has a number of items: grid
/// corners and cells.
pub proof fn lemma_grid_surface_locations(count: [u32; 2], location: Location)
    requires
        location != Location::Projected,
        location != Location::Categories,
    ensures
        GeometryKind::GridSurface.spec_valid_locations().contains(location) <==> grid_surface_items(
            count,
            location,
        ) is Some,
{
    lemma_valid_locations(GeometryKind::GridSurface);
}

} // verus!
