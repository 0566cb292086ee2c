//! The mathematical model of meshing: what the mesh of a voxel grid is, stated
//! over sequences and integers, and the laws that follow from it.

use vstd::prelude::*;
use vstd::arithmetic::div_mod::lemma_fundamental_div_mod_converse;
use crate::cube::{
    face_shown, face_weight, lemma_shape_vertices, neighbor_offset, shape_vertices, shown_faces,
};
use crate::order::{cells_of, materials_within, traversal_order};
use crate::point::{
    cell_count, lattice_point, lemma_index_round_trip, lemma_linear_index_in_range,
    lemma_point_round_trip, linear_index, Point,
};

verus! {

/// The input of a meshing call: one material index per cell in row-major
/// order, one packed color per material, and the extents of the grid.
pub struct Grid {
    pub voxels: Seq<usize>,
    pub palette: Seq<u32>,
    pub size: Point<int>,
}

/// A run of consecutive vertices that belong to one material.
pub struct GroupView {
    pub start: int,
    pub count: int,
    pub material_index: int,
}

/// A mesh: the triangle vertices in emission order and the material groups
/// that divide them.
pub struct MeshView {
    pub vertices: Seq<Point<int>>,
    pub vertex_groups: Seq<GroupView>,
}

/// The grid made of the three inputs of a meshing call.
pub open spec fn grid_of(voxels: Seq<usize>, palette: Seq<u32>, size: Point<int>) -> Grid {
    Grid { voxels, palette, size }
}

/// A shape moved to a cell: every corner plus the cell's coordinate.
pub open spec fn translate(shape: Seq<Point<int>>, by: Point<int>) -> Seq<Point<int>> {
    shape.map_values(|corner: Point<int>| corner.plus(by))
}

/// The sum of the vertex counts of the groups.
pub open spec fn total_count(groups: Seq<GroupView>) -> int
    decreases groups.len(),
{
    if groups.len() == 0 {
        0
    } else {
        total_count(groups.drop_last()) + groups.last().count
    }
}

/// The position just behind the last vertex that the groups cover.
pub open spec fn groups_end(groups: Seq<GroupView>) -> int {
    if groups.len() == 0 {
        0
    } else {
        groups.last().start + groups.last().count
    }
}

impl MeshView {
    /// The grouping invariant: the groups are non-empty runs of whole
    /// triangles that follow one another without gap or overlap and together
    /// cover the vertices, and their materials strictly ascend.
    pub open spec fn well_formed(self) -> bool {
        &&& self.vertices.len() % 3 == 0
        &&& groups_end(self.vertex_groups) == self.vertices.len()
        &&& self.vertex_groups.len() > 0 ==> self.vertex_groups[0].start == 0
        &&& forall|i: int|
            0 <= i < self.vertex_groups.len() ==> {
                let group = #[trigger] self.vertex_groups[i];
                group.count > 0 && group.count % 3 == 0 && group.start >= 0
            }
        &&& forall|i: int|
            0 <= i < self.vertex_groups.len() - 1 ==> (#[trigger] self.vertex_groups[i]).start
                + self.vertex_groups[i].count == self.vertex_groups[i + 1].start
        &&& forall|i: int, j: int|
            0 <= i < j < self.vertex_groups.len() ==> (#[trigger] self.vertex_groups[i])
                .material_index < (#[trigger] self.vertex_groups[j]).material_index
    }
}

impl Grid {
    /// Whether the inputs fit together: one voxel per cell, and every voxel a
    /// valid index into the palette.
    pub open spec fn well_formed(self) -> bool {
        &&& 0 <= self.size.x
        &&& 0 <= self.size.y
        &&& 0 <= self.size.z
        &&& self.voxels.len() == cell_count(self.size)
        &&& materials_within(self.voxels, self.palette.len() as int)
    }

    /// Whether every vertex coordinate of a non-empty grid fits in 32 bits.
    pub open spec fn fits_coordinates(self) -> bool {
        self.voxels.len() > 0 ==> self.size.x <= u32::MAX && self.size.y <= u32::MAX
            && self.size.z <= u32::MAX
    }

    /// The opacity rank of a material: the low byte of its packed color.
    pub open spec fn alpha(self, material: int) -> u32 {
        self.palette[material] & 0xff
    }

    /// The opacity rank of the material in a cell.
    pub open spec fn cell_alpha(self, cell: int) -> u32 {
        self.alpha(self.voxels[cell] as int)
    }

    /// The coordinate next to `cell` across its face `face`.
    pub open spec fn neighbor(self, cell: int, face: int) -> Point<int> {
        lattice_point(cell, self.size).plus(neighbor_offset(face))
    }

    /// Whether face `face` of `cell` is hidden: there is a neighbor inside the
    /// grid across it, and that neighbor is at least as opaque as the cell.
    pub open spec fn face_hidden(self, cell: int, face: int) -> bool {
        let beside = self.neighbor(cell, face);
        beside.within(self.size) && self.cell_alpha(linear_index(beside, self.size))
            >= self.cell_alpha(cell)
    }

    /// The bits of the occlusion mask of `cell` for the first `faces` faces.
    pub open spec fn mask_below(self, cell: int, faces: int) -> int
        decreases faces,
    {
        if faces <= 0 {
            0
        } else if self.face_hidden(cell, faces - 1) {
            self.mask_below(cell, faces - 1) + face_weight(faces - 1)
        } else {
            self.mask_below(cell, faces - 1)
        }
    }

    /// The occlusion mask of `cell`: bit `f` is set exactly when face `f` is
    /// hidden.
    pub open spec fn occlusion_mask(self, cell: int) -> int {
        self.mask_below(cell, 6)
    }

    /// The vertices that `cell` contributes: none if its material is fully
    /// transparent, else the shape of its occlusion mask moved to the cell.
    pub open spec fn cell_vertices(self, cell: int) -> Seq<Point<int>> {
        if self.cell_alpha(cell) == 0 {
            Seq::empty()
        } else {
            translate(
                shape_vertices(self.occlusion_mask(cell)),
                lattice_point(cell, self.size),
            )
        }
    }

    /// The vertices of a list of cells, cell after cell.
    pub open spec fn cells_vertices(self, cells: Seq<int>) -> Seq<Point<int>>
        decreases cells.len(),
    {
        if cells.len() == 0 {
            Seq::empty()
        } else {
            self.cells_vertices(cells.drop_last()) + self.cell_vertices(cells.last())
        }
    }

    /// The vertices of the cells that hold `material`, in storage order.
    pub open spec fn material_vertices(self, material: int) -> Seq<Point<int>> {
        self.cells_vertices(cells_of(self.voxels, material, self.voxels.len() as int))
    }

    /// The vertices of all cells whose material is below `materials`, in
    /// meshing order.
    pub open spec fn vertices_below(self, materials: int) -> Seq<Point<int>> {
        self.cells_vertices(traversal_order(self.voxels, materials))
    }

    /// The groups of the materials below `materials`: one for each material
    /// that contributes a vertex, materials ascending.
    pub open spec fn groups_below(self, materials: int) -> Seq<GroupView>
        decreases materials,
    {
        if materials <= 0 {
            Seq::empty()
        } else if self.material_vertices(materials - 1).len() > 0 {
            self.groups_below(materials - 1).push(
                GroupView {
                    start: self.vertices_below(materials - 1).len() as int,
                    count: self.material_vertices(materials - 1).len() as int,
                    material_index: materials - 1,
                },
            )
        } else {
            self.groups_below(materials - 1)
        }
    }

    /// The mesh of the grid.
    pub open spec fn mesh(self) -> MeshView {
        MeshView {
            vertices: self.vertices_below(self.palette.len() as int),
            vertex_groups: self.groups_below(self.palette.len() as int),
        }
    }
}

/// The bits of a mask for the first `faces` faces stay below the weight of
/// the next face.
pub proof fn lemma_mask_below(grid: Grid, cell: int, faces: int)
    requires
        0 <= faces <= 6,
    ensures
        0 <= grid.mask_below(cell, faces) < face_weight(faces),
    decreases faces,
{
    if faces > 0 {
        lemma_mask_below(grid, cell, faces - 1);
    }
}

/// One if the flag is set, else zero.
pub open spec fn bit(flag: bool) -> int {
    if flag {
        1
    } else {
        0
    }
}

/// In a number written with six binary digits, the digit of weight
/// `face_weight(face)` is digit `face`.
proof fn lemma_binary_digit(digits: Seq<bool>, face: int)
    requires
        digits.len() == 6,
        0 <= face < 6,
    ensures
        ({
            let number = bit(digits[0]) + 2 * bit(digits[1]) + 4 * bit(digits[2]) + 8 * bit(
                digits[3],
            ) + 16 * bit(digits[4]) + 32 * bit(digits[5]);
            (number / face_weight(face)) % 2 == bit(digits[face])
        }),
{
    let b0 = bit(digits[0]);
    let b1 = bit(digits[1]);
    let b2 = bit(digits[2]);
    let b3 = bit(digits[3]);
    let b4 = bit(digits[4]);
    let b5 = bit(digits[5]);
    let number = b0 + 2 * b1 + 4 * b2 + 8 * b3 + 16 * b4 + 32 * b5;
    if face == 0 {
        let high = b0 + 2 * b1 + 4 * b2 + 8 * b3 + 16 * b4 + 32 * b5;
        lemma_fundamental_div_mod_converse(number, 1, high, 0);
        lemma_fundamental_div_mod_converse(high, 2, b1 + 2 * b2 + 4 * b3 + 8 * b4 + 16 * b5, b0);
    } else if face == 1 {
        let high = b1 + 2 * b2 + 4 * b3 + 8 * b4 + 16 * b5;
        lemma_fundamental_div_mod_converse(number, 2, high, b0);
        lemma_fundamental_div_mod_converse(high, 2, b2 + 2 * b3 + 4 * b4 + 8 * b5, b1);
    } else if face == 2 {
        let high = b2 + 2 * b3 + 4 * b4 + 8 * b5;
        lemma_fundamental_div_mod_converse(number, 4, high, b0 + 2 * b1);
        lemma_fundamental_div_mod_converse(high, 2, b3 + 2 * b4 + 4 * b5, b2);
    } else if face == 3 {
        let high = b3 + 2 * b4 + 4 * b5;
        lemma_fundamental_div_mod_converse(number, 8, high, b0 + 2 * b1 + 4 * b2);
        lemma_fundamental_div_mod_converse(high, 2, b4 + 2 * b5, b3);
    } else if face == 4 {
        let high = b4 + 2 * b5;
        lemma_fundamental_div_mod_converse(number, 16, high, b0 + 2 * b1 + 4 * b2 + 8 * b3);
        lemma_fundamental_div_mod_converse(high, 2, b5, b4);
    } else {
        lemma_fundamental_div_mod_converse(
            number,
            32,
            b5,
            b0 + 2 * b1 + 4 * b2 + 8 * b3 + 16 * b4,
        );
        lemma_fundamental_div_mod_converse(b5, 2, 0, b5);
    }
}

/// The occlusion mask written out: the sum of the weights of the hidden
/// faces.
pub proof fn lemma_mask_sum(grid: Grid, cell: int)
    ensures
        grid.occlusion_mask(cell) == bit(grid.face_hidden(cell, 0)) + 2 * bit(
            grid.face_hidden(cell, 1),
        ) + 4 * bit(grid.face_hidden(cell, 2)) + 8 * bit(grid.face_hidden(cell, 3)) + 16 * bit(
            grid.face_hidden(cell, 4),
        ) + 32 * bit(grid.face_hidden(cell, 5)),
{
    reveal_with_fuel(Grid::mask_below, 7);
}

/// The occlusion mask is one of the 64 masks, and the shape it selects shows
/// face `face` exactly when that face is not hidden.
pub proof fn lemma_mask_bits(grid: Grid, cell: int, face: int)
    requires
        0 <= face < 6,
    ensures
        0 <= grid.occlusion_mask(cell) < 64,
        face_shown(grid.occlusion_mask(cell), face) == !grid.face_hidden(cell, face),
{
    lemma_mask_below(grid, cell, 6);
    lemma_mask_sum(grid, cell);
    let digits = Seq::new(6, |f: int| grid.face_hidden(cell, f));
    lemma_binary_digit(digits, face);
}

/// The face that lies against face `face` of the neighboring cell.
pub open spec fn opposite(face: int) -> int {
    if face % 2 == 0 {
        face + 1
    } else {
        face - 1
    }
}

/// A face with no cell of the grid across it is always shown.
pub proof fn lemma_boundary_face(grid: Grid, cell: int, face: int)
    requires
        0 <= face < 6,
        !grid.neighbor(cell, face).within(grid.size),
    ensures
        face_shown(grid.occlusion_mask(cell), face),
{
    lemma_mask_bits(grid, cell, face);
}

/// Two cells that touch look at each other across opposite faces, and of
/// the two faces between them each is hidden exactly when the cell behind it
/// is at least as opaque as the cell it belongs to. Between cells of equal
/// opacity both are hidden.
pub proof fn lemma_shared_face(grid: Grid, cell: int, face: int)
    requires
        grid.well_formed(),
        0 <= cell < grid.voxels.len(),
        0 <= face < 6,
        grid.neighbor(cell, face).within(grid.size),
    ensures
        ({
            let other = linear_index(grid.neighbor(cell, face), grid.size);
            &&& 0 <= other < grid.voxels.len()
            &&& grid.neighbor(other, opposite(face)) == lattice_point(cell, grid.size)
            &&& linear_index(grid.neighbor(other, opposite(face)), grid.size) == cell
            &&& face_shown(grid.occlusion_mask(cell), face) == (grid.cell_alpha(other)
                < grid.cell_alpha(cell))
            &&& face_shown(grid.occlusion_mask(other), opposite(face)) == (grid.cell_alpha(cell)
                < grid.cell_alpha(other))
        }),
{
    let beside = grid.neighbor(cell, face);
    let other = linear_index(beside, grid.size);
    lemma_index_round_trip(cell, grid.size);
    lemma_linear_index_in_range(beside, grid.size);
    lemma_point_round_trip(beside, grid.size);
    assert(grid.neighbor(other, opposite(face)) == lattice_point(cell, grid.size));
    lemma_mask_bits(grid, cell, face);
    lemma_mask_bits(grid, other, opposite(face));
}

/// A cell whose six faces are all hidden has mask 63 and contributes no
/// vertex.
pub proof fn lemma_enclosed_cell(grid: Grid, cell: int)
    requires
        forall|face: int| 0 <= face < 6 ==> grid.face_hidden(cell, face),
    ensures
        grid.occlusion_mask(cell) == 63,
        grid.cell_vertices(cell).len() == 0,
{
    reveal_with_fuel(Grid::mask_below, 7);
    assert(grid.face_hidden(cell, 0));
    assert(grid.face_hidden(cell, 1));
    assert(grid.face_hidden(cell, 2));
    assert(grid.face_hidden(cell, 3));
    assert(grid.face_hidden(cell, 4));
    assert(grid.face_hidden(cell, 5));
    lemma_shape_vertices(63);
}

/// A cell whose material is fully transparent contributes no vertex.
pub proof fn lemma_transparent_cell(grid: Grid, cell: int)
    requires
        grid.cell_alpha(cell) == 0,
    ensures
        grid.cell_vertices(cell).len() == 0,
{
}

/// A cell contributes six vertices for each face that is not hidden, unless
/// its material is fully transparent: whole triangles, 36 vertices at most.
pub proof fn lemma_cell_vertices(grid: Grid, cell: int)
    ensures
        grid.cell_vertices(cell).len() == if grid.cell_alpha(cell) == 0 {
            0
        } else {
            6 * shown_faces(grid.occlusion_mask(cell), 6)
        },
        grid.cell_vertices(cell).len() % 3 == 0,
        grid.cell_vertices(cell).len() <= 36,
{
    lemma_shape_vertices(grid.occlusion_mask(cell));
}

/// The vertices of two lists of cells, one after the other, are the vertices
/// of the first list followed by those of the second.
pub proof fn lemma_cells_vertices_concat(grid: Grid, first: Seq<int>, second: Seq<int>)
    ensures
        grid.cells_vertices(first + second) == grid.cells_vertices(first) + grid.cells_vertices(
            second,
        ),
    decreases second.len(),
{
    if second.len() == 0 {
        assert(first + second =~= first);
    } else {
        lemma_cells_vertices_concat(grid, first, second.drop_last());
        assert((first + second).drop_last() =~= first + second.drop_last());
        assert((first + second).last() == second.last());
    }
}

/// Any list of cells contributes whole triangles.
pub proof fn lemma_cells_vertices_len(grid: Grid, cells: Seq<int>)
    ensures
        grid.cells_vertices(cells).len() % 3 == 0,
    decreases cells.len(),
{
    if cells.len() > 0 {
        lemma_cells_vertices_len(grid, cells.drop_last());
        lemma_cell_vertices(grid, cells.last());
    }
}

/// The vertices below a material, followed by the vertices of that material,
/// are the vertices below the next material.
pub proof fn lemma_vertices_below_step(grid: Grid, material: int)
    requires
        0 <= material,
    ensures
        grid.vertices_below(material + 1) == grid.vertices_below(material)
            + grid.material_vertices(material),
{
    lemma_cells_vertices_concat(
        grid,
        traversal_order(grid.voxels, material),
        cells_of(grid.voxels, material, grid.voxels.len() as int),
    );
}

/// A material that is fully transparent contributes no vertex.
pub proof fn lemma_transparent_material(grid: Grid, material: int, upto: int)
    requires
        0 <= upto <= grid.voxels.len(),
        grid.alpha(material) == 0,
    ensures
        grid.cells_vertices(cells_of(grid.voxels, material, upto)).len() == 0,
    decreases upto,
{
    if upto > 0 {
        lemma_transparent_material(grid, material, upto - 1);
        if grid.voxels[upto - 1] == material {
            let fewer = cells_of(grid.voxels, material, upto - 1);
            assert(fewer.push(upto - 1).drop_last() =~= fewer);
        }
    }
}

/// Materials that contribute no vertex add nothing to the vertices and no
/// group.
pub proof fn lemma_silent_materials(grid: Grid, from: int, to: int)
    requires
        0 <= from <= to,
        forall|material: int|
            from <= material < to ==> (#[trigger] grid.material_vertices(material)).len() == 0,
    ensures
        grid.vertices_below(to) == grid.vertices_below(from),
        grid.groups_below(to) == grid.groups_below(from),
    decreases to - from,
{
    if from < to {
        lemma_silent_materials(grid, from, to - 1);
        lemma_vertices_below_step(grid, to - 1);
        assert(grid.material_vertices(to - 1).len() == 0);
        assert(grid.vertices_below(to) =~= grid.vertices_below(to - 1));
    }
}

/// The grouping invariant holds of the groups of any number of materials,
/// and their counts add up to the number of vertices.
pub proof fn lemma_groups_below(grid: Grid, materials: int)
    requires
        0 <= materials,
    ensures
        (MeshView {
            vertices: grid.vertices_below(materials),
            vertex_groups: grid.groups_below(materials),
        }).well_formed(),
        total_count(grid.groups_below(materials)) == grid.vertices_below(materials).len(),
        forall|i: int|
            0 <= i < grid.groups_below(materials).len() ==> 0 <= (#[trigger] grid.groups_below(
                materials,
            )[i]).material_index < materials,
    decreases materials,
{
    lemma_cells_vertices_len(grid, traversal_order(grid.voxels, materials));
    if materials > 0 {
        let below = grid.groups_below(materials - 1);
        let groups = grid.groups_below(materials);
        lemma_groups_below(grid, materials - 1);
        lemma_vertices_below_step(grid, materials - 1);
        lemma_cells_vertices_len(
            grid,
            cells_of(grid.voxels, materials - 1, grid.voxels.len() as int),
        );
        if grid.material_vertices(materials - 1).len() > 0 {
            assert(groups.drop_last() =~= below);
            assert forall|i: int, j: int| 0 <= i < j < groups.len() implies (#[trigger] groups[i])
                .material_index < (#[trigger] groups[j]).material_index by {
                if j < below.len() {
                    assert(below[i].material_index < below[j].material_index);
                } else {
                    assert(below[i].material_index < materials - 1);
                }
            }
            assert forall|i: int| 0 <= i < groups.len() - 1 implies (#[trigger] groups[i]).start
                + groups[i].count == groups[i + 1].start by {
                if i < below.len() - 1 {
                    assert(below[i].start + below[i].count == below[i + 1].start);
                }
            }
        }
    }
}

/// In a grid of one cell, the materials up to that of the cell contribute
/// nothing, and the materials through it contribute the cell.
proof fn lemma_single_cell_below(grid: Grid, materials: int)
    requires
        grid.voxels.len() == 1,
        0 <= materials,
    ensures
        materials <= grid.voxels[0] ==> traversal_order(grid.voxels, materials) == Seq::<
            int,
        >::empty() && grid.groups_below(materials) == Seq::<GroupView>::empty(),
        materials > grid.voxels[0] ==> traversal_order(grid.voxels, materials) == seq![0int]
            && grid.vertices_below(materials) == grid.cell_vertices(0),
        materials > grid.voxels[0] && grid.cell_vertices(0).len() > 0 ==> grid.groups_below(
            materials,
        ) == seq![
            GroupView {
                start: 0,
                count: grid.cell_vertices(0).len() as int,
                material_index: grid.voxels[0] as int,
            },
        ],
    decreases materials,
{
    reveal_with_fuel(cells_of, 2);
    let single = seq![0int];
    assert(grid.cells_vertices(Seq::<int>::empty()) =~= Seq::<Point<int>>::empty());
    assert(single.drop_last() =~= Seq::<int>::empty());
    assert(single.last() == 0);
    assert(grid.cells_vertices(single) =~= grid.cell_vertices(0));
    if materials > 0 {
        lemma_single_cell_below(grid, materials - 1);
        let material = materials - 1;
        let cells = cells_of(grid.voxels, material, 1);
        if grid.voxels[0] == material {
            assert(cells =~= single);
            assert(traversal_order(grid.voxels, materials) =~= single);
        } else {
            assert(cells =~= Seq::<int>::empty());
            assert(traversal_order(grid.voxels, materials) =~= traversal_order(
                grid.voxels,
                material,
            ));
        }
    }
}

/// A single voxel that is not fully transparent, alone in a grid of one
/// cell, shows all six faces: its mask is 0, the mesh holds the 36 vertices
/// of the whole cube, and they form one group of the voxel's material.
pub proof fn lemma_single_cell(grid: Grid)
    requires
        grid.well_formed(),
        grid.size == (Point { x: 1int, y: 1int, z: 1int }),
        grid.cell_alpha(0) != 0,
    ensures
        grid.occlusion_mask(0) == 0,
        grid.mesh().vertices == shape_vertices(0),
        grid.mesh().vertices.len() == 36,
        grid.mesh().vertex_groups == seq![
            GroupView { start: 0, count: 36, material_index: grid.voxels[0] as int },
        ],
{
    reveal_with_fuel(Grid::mask_below, 7);
    assert(lattice_point(0, grid.size) == Point { x: 0int, y: 0int, z: 0int });
    lemma_shape_vertices(0);
    assert(grid.cell_vertices(0) =~= shape_vertices(0));
    lemma_single_cell_below(grid, grid.palette.len() as int);
}

/// The mesh of every grid satisfies the grouping invariant: each group is a
/// non-empty run of whole triangles, the groups cover the vertices in order
/// without gap or overlap, no two groups share a material, and the group
/// counts add up to the number of vertices.
pub proof fn lemma_mesh_well_formed(grid: Grid)
    ensures
        grid.mesh().well_formed(),
        total_count(grid.mesh().vertex_groups) == grid.mesh().vertices.len(),
{
    lemma_groups_below(grid, grid.palette.len() as int);
}

} // verus!
