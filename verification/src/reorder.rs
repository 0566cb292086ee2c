//! The material groups of a mesh depend only on how many vertices each
//! material contributes, and so not on the order in which the cells are
//! stored.

use vstd::prelude::*;
use crate::cube::shown_faces;
use crate::grid::{lemma_cell_vertices, lemma_mask_bits, lemma_vertices_below_step, Grid};
use crate::order::cells_of;
use crate::point::{
    cell_count, lattice_point, lemma_index_round_trip, lemma_linear_index_in_range,
    lemma_point_round_trip, linear_index, Point,
};

verus! {

/// The sum of `term(0)`, ..., `term(count - 1)`.
pub open spec fn sum_to(term: spec_fn(int) -> int, count: int) -> int
    decreases count,
{
    if count <= 0 {
        0
    } else {
        sum_to(term, count - 1) + term(count - 1)
    }
}

/// The number of vertices that `cell` contributes to `material`: its own
/// vertices if it holds the material, else none.
pub open spec fn cell_share(grid: Grid, material: int, cell: int) -> int {
    if grid.voxels[cell] == material {
        grid.cell_vertices(cell).len() as int
    } else {
        0
    }
}

/// The share of each cell of a grid in one material.
pub open spec fn shares(grid: Grid, material: int) -> spec_fn(int) -> int {
    |cell: int| cell_share(grid, material, cell)
}

/// The share of each cell of the second grid that corresponds to one of the
/// first `matched` cells of the first grid.
pub open spec fn matched_shares(second: Grid, back: Seq<int>, material: int, matched: int)
    -> spec_fn(int) -> int {
    |cell: int|
        if back[cell] < matched {
            cell_share(second, material, cell)
        } else {
            0
        }
}

/// Whether the second grid holds the cells of the first in another order:
/// `to` and `back` pair the cells of the two grids one to one, and each cell
/// keeps its material and the number of its faces that no neighbor hides.
pub open spec fn is_reordering(first: Grid, second: Grid, to: Seq<int>, back: Seq<int>) -> bool {
    &&& first.palette == second.palette
    &&& first.voxels.len() == second.voxels.len()
    &&& to.len() == first.voxels.len()
    &&& back.len() == first.voxels.len()
    &&& forall|cell: int|
        0 <= cell < to.len() ==> 0 <= #[trigger] to[cell] < to.len() && back[to[cell]] == cell
    &&& forall|cell: int|
        0 <= cell < back.len() ==> 0 <= #[trigger] back[cell] < back.len() && to[back[cell]]
            == cell
    &&& forall|cell: int|
        0 <= cell < to.len() ==> second.voxels[#[trigger] to[cell]] == first.voxels[cell]
    &&& forall|cell: int|
        0 <= cell < to.len() ==> shown_faces(second.occlusion_mask(#[trigger] to[cell]), 6)
            == shown_faces(first.occlusion_mask(cell), 6)
}

/// Sums of terms that agree are equal.
proof fn lemma_sum_agree(first: spec_fn(int) -> int, second: spec_fn(int) -> int, count: int)
    requires
        forall|i: int| 0 <= i < count ==> #[trigger] first(i) == second(i),
    ensures
        sum_to(first, count) == sum_to(second, count),
    decreases count,
{
    if count > 0 {
        lemma_sum_agree(first, second, count - 1);
    }
}

/// Raising one term of a sum raises the sum by as much.
proof fn lemma_sum_raise(
    lower: spec_fn(int) -> int,
    higher: spec_fn(int) -> int,
    count: int,
    place: int,
    by: int,
)
    requires
        0 <= place < count,
        higher(place) == lower(place) + by,
        forall|i: int| 0 <= i < count && i != place ==> #[trigger] higher(i) == lower(i),
    ensures
        sum_to(higher, count) == sum_to(lower, count) + by,
    decreases count,
{
    if place == count - 1 {
        lemma_sum_agree(lower, higher, count - 1);
    } else {
        lemma_sum_raise(lower, higher, count - 1, place, by);
    }
}

/// The vertices of a material among the first `upto` cells number the sum of
/// the shares of those cells.
pub proof fn lemma_material_count(grid: Grid, material: int, upto: int)
    requires
        0 <= upto,
    ensures
        grid.cells_vertices(cells_of(grid.voxels, material, upto)).len() == sum_to(
            shares(grid, material),
            upto,
        ),
    decreases upto,
{
    if upto > 0 {
        lemma_material_count(grid, material, upto - 1);
        if grid.voxels[upto - 1] == material {
            let fewer = cells_of(grid.voxels, material, upto - 1);
            assert(fewer.push(upto - 1).drop_last() =~= fewer);
        }
    }
}

/// Pairing one cell after another moves the share of each from one sum to
/// the other.
proof fn lemma_matched_sum(
    first: Grid,
    second: Grid,
    to: Seq<int>,
    back: Seq<int>,
    material: int,
    matched: int,
)
    requires
        is_reordering(first, second, to, back),
        0 <= matched <= to.len(),
    ensures
        sum_to(matched_shares(second, back, material, matched), to.len() as int) == sum_to(
            shares(first, material),
            matched,
        ),
    decreases matched,
{
    let count = to.len() as int;
    if matched == 0 {
        lemma_sum_agree(matched_shares(second, back, material, 0), |cell: int| 0int, count);
        lemma_sum_zero(count);
    } else {
        let cell = matched - 1;
        let place = to[cell];
        lemma_matched_sum(first, second, to, back, material, matched - 1);
        lemma_cell_vertices(first, cell);
        lemma_cell_vertices(second, place);
        assert(second.cell_alpha(place) == first.cell_alpha(cell));
        assert(cell_share(second, material, place) == cell_share(first, material, cell));
        lemma_sum_raise(
            matched_shares(second, back, material, matched - 1),
            matched_shares(second, back, material, matched),
            count,
            place,
            cell_share(first, material, cell),
        );
    }
}

/// A sum of zeros is zero.
proof fn lemma_sum_zero(count: int)
    ensures
        sum_to(|cell: int| 0int, count) == 0,
    decreases count,
{
    if count > 0 {
        lemma_sum_zero(count - 1);
    }
}

/// Each material contributes as many vertices to a grid as to any reordering
/// of it.
pub proof fn lemma_reordering_keeps_counts(
    first: Grid,
    second: Grid,
    to: Seq<int>,
    back: Seq<int>,
    material: int,
)
    requires
        is_reordering(first, second, to, back),
    ensures
        first.material_vertices(material).len() == second.material_vertices(material).len(),
{
    let count = to.len() as int;
    lemma_material_count(first, material, count);
    lemma_material_count(second, material, count);
    lemma_matched_sum(first, second, to, back, material, count);
    lemma_sum_agree(
        matched_shares(second, back, material, count),
        shares(second, material),
        count,
    );
}

/// Two grids to which each material contributes equally many vertices have
/// the same groups.
pub proof fn lemma_groups_follow_counts(first: Grid, second: Grid, materials: int)
    requires
        0 <= materials,
        forall|material: int|
            0 <= material < materials ==> first.material_vertices(material).len()
                == second.material_vertices(material).len(),
    ensures
        first.groups_below(materials) == second.groups_below(materials),
        first.vertices_below(materials).len() == second.vertices_below(materials).len(),
    decreases materials,
{
    if materials > 0 {
        lemma_groups_follow_counts(first, second, materials - 1);
        lemma_vertices_below_step(first, materials - 1);
        lemma_vertices_below_step(second, materials - 1);
    }
}

/// Storing the cells of a grid in another order leaves the groups of its
/// mesh as they are: the same materials, counts and starts. The vertices
/// themselves may come in another order.
pub proof fn lemma_reordering_keeps_groups(
    first: Grid,
    second: Grid,
    to: Seq<int>,
    back: Seq<int>,
)
    requires
        is_reordering(first, second, to, back),
    ensures
        first.mesh().vertex_groups == second.mesh().vertex_groups,
        first.mesh().vertices.len() == second.mesh().vertices.len(),
{
    let materials = first.palette.len() as int;
    assert forall|material: int| 0 <= material < materials implies first.material_vertices(
        material,
    ).len() == second.material_vertices(material).len() by {
        lemma_reordering_keeps_counts(first, second, to, back, material);
    }
    lemma_groups_follow_counts(first, second, materials);
}

/// A point with its `x` and `z` coordinates exchanged.
pub open spec fn swapped(point: Point<int>) -> Point<int> {
    Point { x: point.z, y: point.y, z: point.x }
}

/// The face that takes the place of `face` when `x` and `z` are exchanged.
pub open spec fn swapped_face(face: int) -> int {
    if face == 0 {
        4
    } else if face == 1 {
        5
    } else if face == 4 {
        0
    } else if face == 5 {
        1
    } else {
        face
    }
}

/// Where a cell of a grid is stored once `x` and `z` are exchanged.
pub open spec fn swapped_cell(cell: int, size: Point<int>) -> int {
    linear_index(swapped(lattice_point(cell, size)), swapped(size))
}

/// Whether the second grid is the first with its `x` and `z` axes exchanged:
/// every coordinate holds the same material, stored at another offset.
pub open spec fn is_axis_swap(first: Grid, second: Grid) -> bool {
    &&& first.well_formed()
    &&& second.well_formed()
    &&& first.palette == second.palette
    &&& second.size == swapped(first.size)
    &&& forall|cell: int|
        0 <= cell < first.voxels.len() ==> second.voxels[#[trigger] swapped_cell(
            cell,
            first.size,
        )] == first.voxels[cell]
}

/// Exchanging the axes twice brings every cell back to its offset.
proof fn lemma_swapped_cell(cell: int, size: Point<int>)
    requires
        0 <= cell < cell_count(size),
        0 <= size.x,
        0 <= size.y,
        0 <= size.z,
    ensures
        0 <= swapped_cell(cell, size) < cell_count(swapped(size)),
        lattice_point(swapped_cell(cell, size), swapped(size)) == swapped(
            lattice_point(cell, size),
        ),
        swapped_cell(swapped_cell(cell, size), swapped(size)) == cell,
{
    lemma_index_round_trip(cell, size);
    let moved = swapped(lattice_point(cell, size));
    lemma_linear_index_in_range(moved, swapped(size));
    lemma_point_round_trip(moved, swapped(size));
    assert(swapped(moved) == lattice_point(cell, size));
    assert(swapped(swapped(size)) == size);
}

/// With the axes exchanged, a cell looks across the exchanged face at the
/// same neighbor, so the face is hidden in one grid exactly when it is in
/// the other.
proof fn lemma_swapped_face_hidden(first: Grid, second: Grid, cell: int, face: int)
    requires
        is_axis_swap(first, second),
        0 <= cell < first.voxels.len(),
        0 <= face < 6,
    ensures
        second.face_hidden(swapped_cell(cell, first.size), swapped_face(face))
            == first.face_hidden(cell, face),
{
    let place = swapped_cell(cell, first.size);
    lemma_swapped_cell(cell, first.size);
    let beside = first.neighbor(cell, face);
    assert(second.neighbor(place, swapped_face(face)) == swapped(beside));
    assert(second.cell_alpha(place) == first.cell_alpha(cell));
    if beside.within(first.size) {
        let other = linear_index(beside, first.size);
        lemma_linear_index_in_range(beside, first.size);
        lemma_point_round_trip(beside, first.size);
        assert(swapped_cell(other, first.size) == linear_index(swapped(beside), second.size));
        assert(second.cell_alpha(swapped_cell(other, first.size)) == first.cell_alpha(other));
    }
}

/// With the axes exchanged, every cell keeps the number of its faces that no
/// neighbor hides.
proof fn lemma_swapped_shown_faces(first: Grid, second: Grid, cell: int)
    requires
        is_axis_swap(first, second),
        0 <= cell < first.voxels.len(),
    ensures
        shown_faces(second.occlusion_mask(swapped_cell(cell, first.size)), 6) == shown_faces(
            first.occlusion_mask(cell),
            6,
        ),
{
    let place = swapped_cell(cell, first.size);
    reveal_with_fuel(shown_faces, 7);
    lemma_swapped_face_hidden(first, second, cell, 0);
    lemma_swapped_face_hidden(first, second, cell, 1);
    lemma_swapped_face_hidden(first, second, cell, 2);
    lemma_swapped_face_hidden(first, second, cell, 3);
    lemma_swapped_face_hidden(first, second, cell, 4);
    lemma_swapped_face_hidden(first, second, cell, 5);
    lemma_mask_bits(first, cell, 0);
    lemma_mask_bits(first, cell, 1);
    lemma_mask_bits(first, cell, 2);
    lemma_mask_bits(first, cell, 3);
    lemma_mask_bits(first, cell, 4);
    lemma_mask_bits(first, cell, 5);
    lemma_mask_bits(second, place, 0);
    lemma_mask_bits(second, place, 1);
    lemma_mask_bits(second, place, 2);
    lemma_mask_bits(second, place, 3);
    lemma_mask_bits(second, place, 4);
    lemma_mask_bits(second, place, 5);
}

/// Storing a grid with its `x` and `z` axes exchanged, every coordinate
/// keeping its material, leaves the groups of the mesh as they are.
pub proof fn lemma_axis_swap_keeps_groups(first: Grid, second: Grid)
    requires
        is_axis_swap(first, second),
    ensures
        first.mesh().vertex_groups == second.mesh().vertex_groups,
        first.mesh().vertices.len() == second.mesh().vertices.len(),
{
    let count = first.voxels.len() as int;
    assert(cell_count(swapped(first.size)) == cell_count(first.size)) by (nonlinear_arith);
    let to = Seq::new(count as nat, |cell: int| swapped_cell(cell, first.size));
    let back = Seq::new(count as nat, |cell: int| swapped_cell(cell, second.size));
    assert forall|cell: int| 0 <= cell < count implies 0 <= #[trigger] to[cell] < count
        && back[to[cell]] == cell by {
        lemma_swapped_cell(cell, first.size);
    }
    assert forall|cell: int| 0 <= cell < count implies 0 <= #[trigger] back[cell] < count
        && to[back[cell]] == cell by {
        lemma_swapped_cell(cell, second.size);
        assert(swapped(second.size) == first.size);
    }
    assert forall|cell: int| 0 <= cell < count implies shown_faces(
        second.occlusion_mask(#[trigger] to[cell]),
        6,
    ) == shown_faces(first.occlusion_mask(cell), 6) by {
        lemma_swapped_shown_faces(first, second, cell);
    }
    assert forall|cell: int| 0 <= cell < count implies second.voxels[#[trigger] to[cell]]
        == first.voxels[cell] by {
        assert(to[cell] == swapped_cell(cell, first.size));
    }
    lemma_reordering_keeps_groups(first, second, to, back);
}

} // verus!
