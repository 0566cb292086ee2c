//! Lattice points and the mapping between a grid coordinate and its offset in
//! the flat, row-major voxel array.

use vstd::prelude::*;
use vstd::arithmetic::div_mod::lemma_div_denominator;
use vstd::arithmetic::div_mod::lemma_fundamental_div_mod;
use vstd::arithmetic::div_mod::lemma_fundamental_div_mod_converse;

verus! {

/// A lattice point: three coordinates of one scalar type.
///
/// With unsigned coordinates it names a cell of a grid (or the extents of the
/// grid itself); with signed coordinates it is a displacement between cells.
#[derive(Debug, Copy, Clone)]
pub struct Point<T> where T: Copy {
    pub x: T,
    pub y: T,
    pub z: T,
}

/// The extents of a grid along its three axes.
pub type Size = Point<usize>;

impl View for Point<usize> {
    type V = Point<int>;

    open spec fn view(&self) -> Point<int> {
        Point { x: self.x as int, y: self.y as int, z: self.z as int }
    }
}

impl View for Point<u32> {
    type V = Point<int>;

    open spec fn view(&self) -> Point<int> {
        Point { x: self.x as int, y: self.y as int, z: self.z as int }
    }
}

impl View for Point<u8> {
    type V = Point<int>;

    open spec fn view(&self) -> Point<int> {
        Point { x: self.x as int, y: self.y as int, z: self.z as int }
    }
}

impl View for Point<i8> {
    type V = Point<int>;

    open spec fn view(&self) -> Point<int> {
        Point { x: self.x as int, y: self.y as int, z: self.z as int }
    }
}

impl Point<int> {
    /// Whether the point names a cell of a grid with the given extents.
    pub open spec fn within(self, size: Point<int>) -> bool {
        &&& 0 <= self.x < size.x
        &&& 0 <= self.y < size.y
        &&& 0 <= self.z < size.z
    }

    /// Component-wise sum.
    pub open spec fn plus(self, other: Point<int>) -> Point<int> {
        Point { x: self.x + other.x, y: self.y + other.y, z: self.z + other.z }
    }
}

/// Number of cells in a grid of the given extents.
pub open spec fn cell_count(size: Point<int>) -> int {
    size.x * size.y * size.z
}

/// Row-major offset of `point` in a grid of the given extents: `z` varies
/// fastest, then `y`, then `x`.
pub open spec fn linear_index(point: Point<int>, size: Point<int>) -> int {
    point.x * (size.y * size.z) + point.y * size.z + point.z
}

/// The cell stored at offset `index`: the inverse of [`linear_index`].
pub open spec fn lattice_point(index: int, size: Point<int>) -> Point<int> {
    Point { x: index / (size.y * size.z), y: (index / size.z) % size.y, z: index % size.z }
}

/// The offset of a cell of the grid lies inside the flat array, and the
/// partial product that `to_index` forms on the way does not exceed it.
pub proof fn lemma_linear_index_in_range(point: Point<int>, size: Point<int>)
    requires
        point.within(size),
    ensures
        0 <= linear_index(point, size) < cell_count(size),
        0 <= point.x * size.z <= linear_index(point, size),
{
    let plane = size.y * size.z;
    assert(0 < plane) by (nonlinear_arith)
        requires
            plane == size.y * size.z,
            0 < size.y,
            0 < size.z,
    ;
    assert(0 <= point.y * size.z <= plane - size.z) by (nonlinear_arith)
        requires
            plane == size.y * size.z,
            0 <= point.y < size.y,
            0 < size.z,
    ;
    assert(0 <= point.x * plane <= cell_count(size) - plane) by (nonlinear_arith)
        requires
            plane == size.y * size.z,
            cell_count(size) == size.x * size.y * size.z,
            0 <= point.x < size.x,
            0 < plane,
    ;
    assert(0 <= point.x * size.z <= point.x * plane) by (nonlinear_arith)
        requires
            plane == size.y * size.z,
            0 <= point.x,
            0 < size.y,
            0 < size.z,
    ;
}

/// Decoding the offset of a cell gives the cell back.
pub proof fn lemma_point_round_trip(point: Point<int>, size: Point<int>)
    requires
        point.within(size),
    ensures
        lattice_point(linear_index(point, size), size) == point,
{
    let plane = size.y * size.z;
    let index = linear_index(point, size);
    let row = point.x * size.y + point.y;
    assert(0 <= point.y * size.z + point.z < plane) by (nonlinear_arith)
        requires
            plane == size.y * size.z,
            0 <= point.y < size.y,
            0 <= point.z < size.z,
    ;
    lemma_fundamental_div_mod_converse(index, plane, point.x, point.y * size.z + point.z);
    assert(index == row * size.z + point.z) by (nonlinear_arith)
        requires
            index == point.x * (size.y * size.z) + point.y * size.z + point.z,
            row == point.x * size.y + point.y,
    ;
    lemma_fundamental_div_mod_converse(index, size.z, row, point.z);
    lemma_fundamental_div_mod_converse(row, size.y, point.x, point.y);
}

/// Every offset below the cell count decodes to a cell of the grid, and that
/// cell is stored at the offset.
pub proof fn lemma_index_round_trip(index: int, size: Point<int>)
    requires
        0 <= index < cell_count(size),
        0 <= size.x,
        0 <= size.y,
        0 <= size.z,
    ensures
        lattice_point(index, size).within(size),
        linear_index(lattice_point(index, size), size) == index,
{
    let plane = size.y * size.z;
    assert(0 < size.x && 0 < size.y && 0 < size.z && 0 < plane) by (nonlinear_arith)
        requires
            0 <= index < size.x * size.y * size.z,
            plane == size.y * size.z,
            0 <= size.x,
            0 <= size.y,
            0 <= size.z,
    ;
    let point = lattice_point(index, size);
    let row = index / size.z;
    lemma_fundamental_div_mod(index, size.z);
    lemma_fundamental_div_mod(row, size.y);
    lemma_fundamental_div_mod(index, plane);
    lemma_div_denominator(index, size.z, size.y);
    assert(size.z * size.y == plane) by (nonlinear_arith)
        requires
            plane == size.y * size.z,
    ;
    assert(row / size.y == point.x);
    assert(0 <= point.x < size.x) by (nonlinear_arith)
        requires
            0 <= index < size.x * size.y * size.z,
            plane == size.y * size.z,
            0 < plane,
            index == plane * point.x + index % plane,
            0 <= index % plane < plane,
    ;
    assert(linear_index(point, size) == index) by (nonlinear_arith)
        requires
            linear_index(point, size) == point.x * (size.y * size.z) + point.y * size.z
                + point.z,
            index == size.z * row + point.z,
            row == size.y * point.x + point.y,
    ;
}

impl Point<usize> {
    /// Whether the point names a cell of a grid with the given extents.
    pub fn in_bounds(&self, size: &Size) -> (inside: bool)
        ensures
            inside == self@.within(size@),
    {
        self.x < size.x && self.y < size.y && self.z < size.z
    }

    /// The cell stored at offset `i` of a grid with the given extents.
    pub fn from_index(i: usize, size: &Size) -> (point: Self)
        requires
            size.y > 0,
            size.z > 0,
        ensures
            point@ == lattice_point(i as int, size@),
    {
        proof {
            lemma_div_denominator(i as int, size.z as int, size.y as int);
            assert(size.z * size.y == size.y * size.z) by (nonlinear_arith);
        }
        Point { x: i / size.z / size.y, y: i / size.z % size.y, z: i % size.z }
    }

    /// The offset at which the point is stored in a grid with the given
    /// extents. The point is not tested against the extents.
    pub fn to_index(&self, size: &Size) -> (index: usize)
        requires
            self.x * size.z <= usize::MAX,
            linear_index(self@, size@) <= usize::MAX,
        ensures
            index == linear_index(self@, size@),
    {
        proof {
            assert(self.x * size.z * size.y == self.x * (size.y * size.z)) by (nonlinear_arith);
            assert(0 <= self.y * size.z) by (nonlinear_arith);
            assert(0 <= self.x * (size.y * size.z)) by (nonlinear_arith);
        }
        self.x * size.z * size.y + self.y * size.z + self.z
    }
}

} // verus!
