//! The mesh builder: culls the cube faces that a neighbor hides, emits the
//! triangles of the faces that remain, and groups the vertices by material.

use vstd::prelude::*;
use crate::cube::{
    corners_view, face_weight, get_shapes, is_unit_corner, lemma_shape_vertices,
    neighbor_offset, neighbor_step, shape_table, shape_vertices, Shape,
};
use crate::grid::{
    grid_of, lemma_mask_below, lemma_mesh_well_formed, lemma_silent_materials,
    lemma_transparent_material, lemma_vertices_below_step, total_count, translate, Grid,
    GroupView, MeshView,
};
use crate::order::{
    bucket_start, cells_of, is_sorted_by_material, lemma_cells_of, lemma_order_bucket,
    lemma_order_len, lemma_order_position, lemma_order_prefix, lemma_traversal_order_sorted,
    sort_by_material, traversal_order,
};
use crate::point::{
    lattice_point, lemma_index_round_trip, lemma_linear_index_in_range, Point, Size,
};

verus! {

/// A run of consecutive vertices of a mesh that belong to one material.
#[derive(Debug, Clone)]
pub struct VertexGroup {
    start: usize,
    count: usize,
    material_index: usize,
}

impl View for VertexGroup {
    type V = GroupView;

    closed spec fn view(&self) -> GroupView {
        GroupView {
            start: self.start as int,
            count: self.count as int,
            material_index: self.material_index as int,
        }
    }
}

impl VertexGroup {
    /// The group that is open before the first cell is visited: no vertices,
    /// material 0.
    fn zeroed() -> (group: VertexGroup)
        ensures
            group.start == 0,
            group.count == 0,
            group.material_index == 0,
    {
        VertexGroup { start: 0, count: 0, material_index: 0 }
    }

    /// Position of the group's first vertex in the mesh.
    pub fn start(&self) -> (start: usize)
        ensures
            start == self@.start,
    {
        self.start
    }

    /// Number of vertices in the group.
    pub fn count(&self) -> (count: usize)
        ensures
            count == self@.count,
    {
        self.count
    }

    /// The material that the group's vertices belong to.
    pub fn material_index(&self) -> (material_index: usize)
        ensures
            material_index == self@.material_index,
    {
        self.material_index
    }
}

/// The vertices of a mesh as mathematical points.
pub open spec fn points_view(points: Seq<Point<u32>>) -> Seq<Point<int>> {
    points.map_values(|point: Point<u32>| point@)
}

/// The groups of a mesh as mathematical records.
pub open spec fn groups_view(groups: Seq<VertexGroup>) -> Seq<GroupView> {
    groups.map_values(|group: VertexGroup| group@)
}

/// A triangle mesh: three vertices per triangle, not indexed, with the
/// material groups that divide the vertices.
#[derive(Debug, Clone)]
pub struct Mesh {
    vertices: Vec<Point<u32>>,
    vertex_groups: Vec<VertexGroup>,
}

impl View for Mesh {
    type V = MeshView;

    closed spec fn view(&self) -> MeshView {
        MeshView {
            vertices: points_view(self.vertices@),
            vertex_groups: groups_view(self.vertex_groups@),
        }
    }
}

impl Mesh {
    /// The vertices, in emission order.
    pub fn vertices(&self) -> (vertices: &Vec<Point<u32>>)
        ensures
            points_view(vertices@) == self@.vertices,
    {
        &self.vertices
    }

    /// The material groups, in emission order.
    pub fn vertex_groups(&self) -> (vertex_groups: &Vec<VertexGroup>)
        ensures
            groups_view(vertex_groups@) == self@.vertex_groups,
    {
        &self.vertex_groups
    }
}

/// Setting bit `face` of a mask that has no bit at or above it adds the
/// weight of the face.
proof fn lemma_set_face_bit(mask: usize, face: usize)
    requires
        face < 6,
        mask < face_weight(face as int),
    ensures
        mask | (1usize << face) == mask + face_weight(face as int),
{
    if face == 0 {
        assert(mask < 1 ==> mask | (1usize << 0usize) == mask + 1) by (bit_vector);
    } else if face == 1 {
        assert(mask < 2 ==> mask | (1usize << 1usize) == mask + 2) by (bit_vector);
    } else if face == 2 {
        assert(mask < 4 ==> mask | (1usize << 2usize) == mask + 4) by (bit_vector);
    } else if face == 3 {
        assert(mask < 8 ==> mask | (1usize << 3usize) == mask + 8) by (bit_vector);
    } else if face == 4 {
        assert(mask < 16 ==> mask | (1usize << 4usize) == mask + 16) by (bit_vector);
    } else {
        assert(mask < 32 ==> mask | (1usize << 5usize) == mask + 32) by (bit_vector);
    }
}

/// Moves a coordinate by a signed step. The sum is formed in a wider signed
/// type, so a step below zero or past the extent is seen and not wrapped.
pub fn shifted(coordinate: usize, step: i8, extent: usize) -> (moved: Option<usize>)
    ensures
        match moved {
            Some(value) => value == coordinate + step && value < extent,
            None => !(0 <= coordinate + step < extent),
        },
{
    let sum: i128 = coordinate as i128 + step as i128;
    if 0 <= sum && sum < extent as i128 {
        Some(sum as usize)
    } else {
        None
    }
}

/// The cell next to `position` across its face `face`, if the grid has one.
pub fn neighbor_of(position: &Point<usize>, face: usize, size: &Size) -> (beside: Option<
    Point<usize>,
>)
    requires
        face < 6,
    ensures
        match beside {
            Some(point) => point@ == position@.plus(neighbor_offset(face as int)) && point@.within(
                size@,
            ),
            None => !position@.plus(neighbor_offset(face as int)).within(size@),
        },
{
    let step = neighbor_step(face);
    match shifted(position.x, step.x, size.x) {
        Some(x) => match shifted(position.y, step.y, size.y) {
            Some(y) => match shifted(position.z, step.z, size.z) {
                Some(z) => Some(Point { x, y, z }),
                None => None,
            },
            None => None,
        },
        None => None,
    }
}

/// The occlusion mask of a cell: bit `f` is set exactly when the neighbor
/// across face `f` lies inside the grid and is at least as opaque as the
/// cell.
pub fn occlusion_mask(voxels: &Vec<usize>, palette: &Vec<u32>, size: &Size, cell: usize) -> (mask:
    usize)
    requires
        grid_of(voxels@, palette@, size@).well_formed(),
        cell < voxels.len(),
    ensures
        mask == grid_of(voxels@, palette@, size@).occlusion_mask(cell as int),
        mask < 64,
{
    let ghost grid = grid_of(voxels@, palette@, size@);
    proof {
        lemma_index_round_trip(cell as int, size@);
    }
    let position = Point::from_index(cell, size);
    let alpha = palette[voxels[cell]] & 0xff;
    let mut mask: usize = 0;
    let mut face: usize = 0;
    while face < 6
        invariant
            face <= 6,
            grid == grid_of(voxels@, palette@, size@),
            grid.well_formed(),
            cell < voxels.len(),
            position@ == lattice_point(cell as int, size@),
            alpha == grid.cell_alpha(cell as int),
            mask == grid.mask_below(cell as int, face as int),
        decreases 6 - face,
    {
        proof {
            lemma_mask_below(grid, cell as int, face as int);
            lemma_mask_below(grid, cell as int, face + 1);
        }
        match neighbor_of(&position, face, size) {
            Some(point) => {
                proof {
                    lemma_linear_index_in_range(point@, size@);
                }
                let beside = point.to_index(size);
                let other = palette[voxels[beside]] & 0xff;
                if other >= alpha {
                    proof {
                        lemma_set_face_bit(mask, face);
                    }
                    mask = mask | (1usize << face);
                }
            },
            None => {},
        }
        face = face + 1;
    }
    proof {
        lemma_mask_below(grid, cell as int, 6);
    }
    mask
}

/// The meshing engine. It owns the shape table, which is built once and only
/// read by every meshing call.
#[derive(Debug)]
pub struct Meshifier {
    shapes: Vec<Shape>,
}

impl View for Meshifier {
    type V = Seq<Seq<Point<int>>>;

    closed spec fn view(&self) -> Seq<Seq<Point<int>>> {
        self.shapes@.map_values(|shape: Shape| corners_view(shape@))
    }
}

impl Clone for Meshifier {
    /// Every engine holds the same table, so a copy is an engine built anew.
    fn clone(&self) -> (copy: Self)
        ensures
            copy@ == self@,
    {
        proof {
            use_type_invariant(self);
            assert(self@ =~= shape_table());
        }
        Meshifier::new()
    }
}

impl Meshifier {
    /// The table holds the shape of each of the 64 masks.
    #[verifier::type_invariant]
    spec fn table_built(&self) -> bool {
        &&& self.shapes.len() == 64
        &&& forall|mask: int|
            0 <= mask < 64 ==> corners_view(#[trigger] self.shapes[mask]@) == shape_vertices(mask)
    }

    /// Builds the engine with its shape table.
    pub fn new() -> (meshifier: Self)
        ensures
            meshifier@ == shape_table(),
    {
        let meshifier = Meshifier { shapes: get_shapes() };
        assert(meshifier@ =~= shape_table());
        meshifier
    }

    /// The shape that the table holds for a mask.
    pub fn shape(&self, mask: usize) -> (shape: &Shape)
        requires
            mask < 64,
        ensures
            corners_view(shape@) == shape_vertices(mask as int),
            corners_view(shape@) == self@[mask as int],
    {
        proof {
            use_type_invariant(self);
        }
        &self.shapes[mask]
    }

    /// Converts a grid of voxels into a triangle mesh.
    ///
    /// The cells are paired with their materials and sorted by material, cells
    /// of one material keeping their storage order, and then visited once in
    /// that order. A cell whose material is fully transparent is passed over.
    /// Any other cell contributes the triangles of its faces that no neighbor
    /// hides. The group that is open is closed, and a new one opened, when
    /// the material changes; a group without vertices is dropped.
    pub fn meshify(&self, voxels: &Vec<usize>, palette: &Vec<u32>, size: &Size) -> (mesh: Mesh)
        requires
            grid_of(voxels@, palette@, size@).well_formed(),
            grid_of(voxels@, palette@, size@).fits_coordinates(),
        ensures
            mesh@ == grid_of(voxels@, palette@, size@).mesh(),
            mesh@.well_formed(),
            total_count(mesh@.vertex_groups) == mesh@.vertices.len(),
    {
        let ghost grid = grid_of(voxels@, palette@, size@);
        let ghost materials = palette.len() as int;
        let ghost order = traversal_order(voxels@, materials);
        let indexed_voxels = sort_by_material(voxels, palette.len());
        let mut vertices: Vec<Point<u32>> = Vec::new();
        let mut vertex_groups: Vec<VertexGroup> = Vec::new();
        let mut last_vertex_group = VertexGroup::zeroed();
        let mut position: usize = 0;
        proof {
            lemma_traversal_order_sorted(voxels@, materials);
            assert(order.take(0) =~= Seq::<int>::empty());
            assert(traversal_order(voxels@, 0) =~= Seq::<int>::empty());
        }
        while position < indexed_voxels.len()
            invariant
                position <= voxels.len(),
                grid == grid_of(voxels@, palette@, size@),
                grid.well_formed(),
                grid.fits_coordinates(),
                materials == palette.len(),
                order == traversal_order(voxels@, materials),
                order.len() == voxels.len(),
                forall|k: int| 0 <= k < voxels.len() ==> 0 <= #[trigger] order[k] < voxels.len(),
                forall|a: int, b: int|
                    0 <= a < b < voxels.len() ==> voxels[#[trigger] order[a]]
                        <= voxels[#[trigger] order[b]],
                is_sorted_by_material(indexed_voxels@, voxels@, materials),
                points_view(vertices@) == grid.cells_vertices(order.take(position as int)),
                groups_view(vertex_groups@) == grid.groups_below(
                    last_vertex_group.material_index as int,
                ),
                last_vertex_group.start == grid.vertices_below(
                    last_vertex_group.material_index as int,
                ).len(),
                last_vertex_group.start + last_vertex_group.count == vertices.len(),
                last_vertex_group.material_index == 0 || last_vertex_group.material_index
                    < materials,
                last_vertex_group.material_index == 0 || (position >= 1 && voxels[order[position
                    - 1]] >= last_vertex_group.material_index),
                forall|k: int|
                    0 <= k < position && voxels[#[trigger] order[k]]
                        > last_vertex_group.material_index ==> grid.alpha(voxels[order[k]] as int)
                        == 0,
            decreases voxels.len() - position,
        {
            let position_index = indexed_voxels[position].0;
            let color_index = indexed_voxels[position].1;
            assert(position_index == order[position as int]);
            assert(color_index == voxels[position_index as int]);
            proof {
                lemma_index_round_trip(position_index as int, size@);
                assert(order.take(position + 1).drop_last() =~= order.take(position as int));
                if position >= 1 {
                    assert(voxels[order[position - 1]] <= voxels[order[position as int]]);
                }
            }
            let cell_position = Point::from_index(position_index, size);

            let color = palette[color_index];
            let alpha = color & 0xff;
            if alpha != 0 {
                if last_vertex_group.material_index != color_index {
                    proof {
                        lemma_run_closed(
                            grid,
                            last_vertex_group.material_index as int,
                            color_index as int,
                            position as int,
                        );
                    }
                    if last_vertex_group.count > 0 {
                        let ghost groups = vertex_groups@;
                        vertex_groups.push(last_vertex_group);
                        assert(groups_view(vertex_groups@) =~= groups_view(groups).push(
                            last_vertex_group@,
                        ));
                    }
                    last_vertex_group = VertexGroup {
                        start: vertices.len(),
                        count: 0,
                        material_index: color_index,
                    };
                }
                let shape_index = occlusion_mask(voxels, palette, size, position_index);
                let shape = self.shape(shape_index);
                proof {
                    lemma_shape_vertices(shape_index as int);
                }
                emit_shape(shape, &cell_position, &mut vertices);
                last_vertex_group.count = last_vertex_group.count + shape.len();
            } else {
                assert(grid.cell_vertices(position_index as int) =~= Seq::<Point<int>>::empty());
                assert(points_view(vertices@) =~= grid.cells_vertices(
                    order.take(position + 1),
                ));
            }
            position = position + 1;
        }
        proof {
            assert(order.take(position as int) =~= order);
            if materials > 0 {
                lemma_order_len(voxels@, materials, voxels.len() as int);
                lemma_run_closed(
                    grid,
                    last_vertex_group.material_index as int,
                    materials,
                    position as int,
                );
            }
        }
        if last_vertex_group.count > 0 {
            let ghost groups = vertex_groups@;
            vertex_groups.push(last_vertex_group);
            assert(groups_view(vertex_groups@) =~= groups_view(groups).push(last_vertex_group@));
        }
        proof {
            lemma_mesh_well_formed(grid);
        }
        Mesh { vertices, vertex_groups }
    }
}

/// Appends a shape moved to a cell: every corner plus the cell's coordinate.
pub fn emit_shape(shape: &Shape, position: &Point<usize>, vertices: &mut Vec<Point<u32>>)
    requires
        forall|k: int| 0 <= k < shape.len() ==> is_unit_corner(#[trigger] corners_view(shape@)[k]),
        position.x < u32::MAX,
        position.y < u32::MAX,
        position.z < u32::MAX,
    ensures
        points_view(final(vertices)@) == points_view(old(vertices)@) + translate(
            corners_view(shape@),
            position@,
        ),
        final(vertices).len() == old(vertices).len() + shape.len(),
{
    let ghost before = vertices@;
    let ghost corners = corners_view(shape@);
    let mut k: usize = 0;
    while k < shape.len()
        invariant
            k <= shape.len(),
            corners == corners_view(shape@),
            forall|j: int| 0 <= j < shape.len() ==> is_unit_corner(#[trigger] corners[j]),
            position.x < u32::MAX,
            position.y < u32::MAX,
            position.z < u32::MAX,
            vertices.len() == before.len() + k,
            forall|j: int| 0 <= j < before.len() ==> vertices[j] == before[j],
            forall|j: int|
                before.len() <= j < vertices.len() ==> (#[trigger] vertices[j])@ == corners[j
                    - before.len()].plus(position@),
        decreases shape.len() - k,
    {
        let vertex = shape[k];
        assert(corners[k as int] == vertex@);
        assert(is_unit_corner(corners[k as int]));
        let offset_vertex = Point {
            x: vertex.x as u32 + position.x as u32,
            y: vertex.y as u32 + position.y as u32,
            z: vertex.z as u32 + position.z as u32,
        };
        vertices.push(offset_vertex);
        k = k + 1;
    }
    assert(points_view(vertices@) =~= points_view(before) + translate(corners, position@));
}

/// When the cell at `position` of the meshing order holds a material that is
/// not fully transparent, and every cell before it above the material
/// `open` is fully transparent, then the cell is the first of its material,
/// and the materials between `open` and it contribute nothing. The same
/// holds at the end of the order, with the number of materials in place of
/// the cell's material.
proof fn lemma_run_closed(grid: Grid, open: int, next: int, position: int)
    requires
        grid.well_formed(),
        0 <= open < next <= grid.palette.len(),
        0 <= position <= grid.voxels.len(),
        position == grid.voxels.len() ==> next == grid.palette.len(),
        position < grid.voxels.len() ==> grid.voxels[traversal_order(
            grid.voxels,
            grid.palette.len() as int,
        )[position]] == next && grid.alpha(next) != 0,
        forall|k: int|
            0 <= k < position && grid.voxels[#[trigger] traversal_order(
                grid.voxels,
                grid.palette.len() as int,
            )[k]] > open ==> grid.alpha(
                grid.voxels[traversal_order(grid.voxels, grid.palette.len() as int)[k]] as int,
            ) == 0,
    ensures
        position == bucket_start(grid.voxels, next),
        traversal_order(grid.voxels, grid.palette.len() as int).take(position)
            == traversal_order(grid.voxels, next),
        grid.vertices_below(next) == grid.vertices_below(open) + grid.material_vertices(open),
        grid.groups_below(next) == grid.groups_below(open + 1),
{
    let voxels = grid.voxels;
    let materials = grid.palette.len() as int;
    let cells = voxels.len() as int;
    let order = traversal_order(voxels, materials);
    lemma_order_len(voxels, materials, cells);
    lemma_order_prefix(voxels, next, materials, cells);
    if position < cells {
        let (material, rank) = lemma_order_position(voxels, materials, cells, position);
        lemma_cells_of(voxels, material, cells);
        assert(material == next);
        if rank > 0 {
            lemma_order_bucket(voxels, materials, cells, next, 0);
            assert(voxels[order[bucket_start(voxels, next)]] == next);
        }
    }
    assert(order.take(position) =~= traversal_order(voxels, next));
    assert forall|material: int| open + 1 <= material < next implies (
    #[trigger] grid.material_vertices(material)).len() == 0 by {
        let run = cells_of(voxels, material, cells);
        if run.len() > 0 {
            lemma_order_bucket(voxels, materials, cells, material, 0);
            lemma_order_prefix(voxels, material + 1, next, cells);
            lemma_cells_of(voxels, material, cells);
            let first = bucket_start(voxels, material);
            assert(voxels[order[first]] == material);
            lemma_transparent_material(grid, material, cells);
        }
    }
    lemma_silent_materials(grid, open + 1, next);
    lemma_vertices_below_step(grid, open);
}

/// Meshing is a function of its inputs: two meshes made of the same voxels,
/// palette and extents hold the same vertices and the same groups.
pub proof fn lemma_meshify_deterministic(
    voxels: Seq<usize>,
    palette: Seq<u32>,
    size: Point<int>,
    first: Mesh,
    second: Mesh,
)
    requires
        first@ == grid_of(voxels, palette, size).mesh(),
        second@ == grid_of(voxels, palette, size).mesh(),
    ensures
        first@ == second@,
        first@.vertices == second@.vertices,
        first@.vertex_groups == second@.vertex_groups,
{
}

} // verus!
