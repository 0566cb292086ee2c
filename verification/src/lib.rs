//! Converts a dense grid of voxel material indices into a triangle mesh: the
//! faces that a neighbor hides are culled, and the vertices are grouped by
//! material.

use vstd::prelude::*;

pub mod cube;
pub mod grid;
pub mod meshify;
pub mod order;
pub mod point;
pub mod reorder;

use crate::grid::{grid_of, total_count, Grid};
use crate::meshify::{Mesh, Meshifier};
use crate::order::materials_within;
use crate::point::{cell_count, Point, Size};

verus! {

/// Why a grid cannot be meshed.
#[derive(Debug, Clone, Copy, PartialEq, Eq, Structural)]
pub enum MeshError {
    /// The grid has cells, and one of its extents does not fit in 32 bits,
    /// so a vertex coordinate could not be stored.
    CoordinateOverflow,
    /// The number of voxels differs from the number of cells of the grid.
    GridSizeMismatch,
    /// A voxel names a material that the palette does not hold.
    MaterialOutOfRange,
}

/// Whether a grid with cells has an extent that does not fit in 32 bits.
pub open spec fn overflows_coordinates(size: Point<int>) -> bool {
    size.x > 0 && size.y > 0 && size.z > 0 && (size.x > u32::MAX || size.y > u32::MAX || size.z
        > u32::MAX)
}

/// The reason for which a grid is refused, if there is one. The extents are
/// tested first, then the voxel count, then the material indices.
pub open spec fn rejection(grid: Grid) -> Option<MeshError> {
    if overflows_coordinates(grid.size) {
        Some(MeshError::CoordinateOverflow)
    } else if grid.voxels.len() != cell_count(grid.size) {
        Some(MeshError::GridSizeMismatch)
    } else if !materials_within(grid.voxels, grid.palette.len() as int) {
        Some(MeshError::MaterialOutOfRange)
    } else {
        None
    }
}

/// A grid is refused exactly when it is not fit to be meshed.
pub proof fn lemma_rejection(grid: Grid)
    requires
        0 <= grid.size.x,
        0 <= grid.size.y,
        0 <= grid.size.z,
    ensures
        rejection(grid) is None <==> grid.well_formed() && grid.fits_coordinates(),
{
    let size = grid.size;
    assert(size.x * size.y * size.z > 0 <==> size.x > 0 && size.y > 0 && size.z > 0)
        by (nonlinear_arith)
        requires
            0 <= size.x,
            0 <= size.y,
            0 <= size.z,
    ;
}

/// Whether `count` is the number of cells of a grid with the given extents.
pub fn holds_cells(count: usize, size: &Size) -> (holds: bool)
    ensures
        holds == (count == cell_count(size@)),
{
    if size.x == 0 || size.y == 0 || size.z == 0 {
        assert(size.x * size.y * size.z == 0) by (nonlinear_arith)
            requires
                size.x == 0 || size.y == 0 || size.z == 0,
        ;
        count == 0
    } else {
        match size.x.checked_mul(size.y) {
            Some(plane) => match plane.checked_mul(size.z) {
                Some(cells) => count == cells,
                None => false,
            },
            None => {
                assert(size.x * size.y * size.z >= size.x * size.y) by (nonlinear_arith)
                    requires
                        size.x >= 1,
                        size.y >= 1,
                        size.z >= 1,
                ;
                false
            },
        }
    }
}

/// Tests the inputs of a meshing call, and names the first reason for which
/// they are refused.
pub fn check_grid(voxels: &Vec<usize>, palette: &Vec<u32>, size: &Size) -> (result: Result<
    (),
    MeshError,
>)
    ensures
        result == match rejection(grid_of(voxels@, palette@, size@)) {
            Some(error) => Err::<(), MeshError>(error),
            None => Ok(()),
        },
        result is Ok <==> grid_of(voxels@, palette@, size@).well_formed() && grid_of(
            voxels@,
            palette@,
            size@,
        ).fits_coordinates(),
{
    proof {
        lemma_rejection(grid_of(voxels@, palette@, size@));
    }
    if size.x > 0 && size.y > 0 && size.z > 0 && (size.x > u32::MAX as usize || size.y
        > u32::MAX as usize || size.z > u32::MAX as usize) {
        return Err(MeshError::CoordinateOverflow);
    }
    if !holds_cells(voxels.len(), size) {
        return Err(MeshError::GridSizeMismatch);
    }
    let mut i: usize = 0;
    while i < voxels.len()
        invariant
            i <= voxels.len(),
            voxels.len() == cell_count(size@),
            !overflows_coordinates(size@),
            forall|k: int| 0 <= k < i ==> #[trigger] voxels[k] < palette.len(),
        decreases voxels.len() - i,
    {
        if voxels[i] >= palette.len() {
            proof {
                let grid = grid_of(voxels@, palette@, size@);
                assert(!(grid.voxels[i as int] < grid.palette.len()));
                assert(!materials_within(grid.voxels, grid.palette.len() as int));
            }
            return Err(MeshError::MaterialOutOfRange);
        }
        i = i + 1;
    }
    Ok(())
}

impl Meshifier {
    /// Meshes the grid if its inputs fit together, and else names the reason
    /// for which they are refused.
    pub fn checked_meshify(&self, voxels: &Vec<usize>, palette: &Vec<u32>, size: &Size) -> (result:
        Result<Mesh, MeshError>)
        ensures
            match result {
                Ok(mesh) => rejection(grid_of(voxels@, palette@, size@)) is None && mesh@
                    == grid_of(voxels@, palette@, size@).mesh() && mesh@.well_formed()
                    && total_count(mesh@.vertex_groups) == mesh@.vertices.len(),
                Err(error) => rejection(grid_of(voxels@, palette@, size@)) == Some(error),
            },
    {
        match check_grid(voxels, palette, size) {
            Ok(()) => Ok(self.meshify(voxels, palette, size)),
            Err(error) => Err(error),
        }
    }
}

/// Meshes a grid of `size_x` by `size_y` by `size_z` cells, stored with `z`
/// varying fastest and `x` slowest.
pub fn meshify(
    voxels: Vec<usize>,
    palette: Vec<u32>,
    size_x: usize,
    size_y: usize,
    size_z: usize,
) -> (result: Result<Mesh, MeshError>)
    ensures
        ({
            let grid = grid_of(voxels@, palette@, (Point { x: size_x, y: size_y, z: size_z })@);
            match result {
                Ok(mesh) => rejection(grid) is None && mesh@ == grid.mesh() && mesh@.well_formed()
                    && total_count(mesh@.vertex_groups) == mesh@.vertices.len(),
                Err(error) => rejection(grid) == Some(error),
            }
        }),
{
    let size = Point { x: size_x, y: size_y, z: size_z };
    Meshifier::new().checked_meshify(&voxels, &palette, &size)
}

} // verus!
