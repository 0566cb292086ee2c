//! The shape table: for each of the 64 combinations of hidden cube faces, the
//! triangles that draw the faces left visible.
//!
//! Faces are numbered 0 to 5 in the order `+z`, `-z`, `+y`, `-y`, `+x`, `-x`.
//! A visibility mask has bit `f` set when face `f` is hidden.

use vstd::prelude::*;
use crate::point::Point;

verus! {

/// The triangle vertices of one cube shape, as corners of the unit cube.
pub type Shape = Vec<Point<u8>>;

/// Number of faces of a cube.
pub const FACE_COUNT: usize = 6;

/// Number of visibility masks, and so of shapes in the table.
pub const SHAPE_COUNT: usize = 64;

/// Number of vertices that draw one face: two triangles.
pub const FACE_VERTEX_COUNT: usize = 6;

/// A corner of the unit cube.
pub open spec fn corner(x: int, y: int, z: int) -> Point<int> {
    Point { x, y, z }
}

/// Whether every coordinate of the point is 0 or 1.
pub open spec fn is_unit_corner(point: Point<int>) -> bool {
    &&& 0 <= point.x <= 1
    &&& 0 <= point.y <= 1
    &&& 0 <= point.z <= 1
}

/// The two triangles that cover face `face` of the unit cube. Seen from
/// outside the cube they are wound counter-clockwise where the axes form a
/// left-handed system, and clockwise where they form a right-handed one.
pub open spec fn face_vertices(face: int) -> Seq<Point<int>> {
    if face == 0 {
        seq![
            corner(1, 1, 1),
            corner(1, 0, 1),
            corner(0, 0, 1),
            corner(1, 1, 1),
            corner(0, 0, 1),
            corner(0, 1, 1),
        ]
    } else if face == 1 {
        seq![
            corner(0, 1, 0),
            corner(0, 0, 0),
            corner(1, 0, 0),
            corner(0, 1, 0),
            corner(1, 0, 0),
            corner(1, 1, 0),
        ]
    } else if face == 2 {
        seq![
            corner(1, 1, 0),
            corner(1, 1, 1),
            corner(0, 1, 1),
            corner(1, 1, 0),
            corner(0, 1, 1),
            corner(0, 1, 0),
        ]
    } else if face == 3 {
        seq![
            corner(0, 0, 0),
            corner(0, 0, 1),
            corner(1, 0, 1),
            corner(0, 0, 0),
            corner(1, 0, 1),
            corner(1, 0, 0),
        ]
    } else if face == 4 {
        seq![
            corner(1, 1, 0),
            corner(1, 0, 0),
            corner(1, 0, 1),
            corner(1, 1, 0),
            corner(1, 0, 1),
            corner(1, 1, 1),
        ]
    } else if face == 5 {
        seq![
            corner(0, 1, 1),
            corner(0, 0, 1),
            corner(0, 0, 0),
            corner(0, 1, 1),
            corner(0, 0, 0),
            corner(0, 1, 0),
        ]
    } else {
        Seq::empty()
    }
}

/// The displacement from a cell to the neighbor that touches its face `face`.
pub open spec fn neighbor_offset(face: int) -> Point<int> {
    if face == 0 {
        corner(0, 0, 1)
    } else if face == 1 {
        corner(0, 0, -1)
    } else if face == 2 {
        corner(0, 1, 0)
    } else if face == 3 {
        corner(0, -1, 0)
    } else if face == 4 {
        corner(1, 0, 0)
    } else {
        corner(-1, 0, 0)
    }
}

/// The value of bit `face` in a visibility mask: two to the power `face`, for
/// the six faces and the first number past all masks.
pub open spec fn face_weight(face: int) -> int {
    if face == 0 {
        1
    } else if face == 1 {
        2
    } else if face == 2 {
        4
    } else if face == 3 {
        8
    } else if face == 4 {
        16
    } else if face == 5 {
        32
    } else {
        64
    }
}

/// Whether `mask` leaves face `face` visible, that is, whether its bit `face`
/// is clear.
pub open spec fn face_shown(mask: int, face: int) -> bool {
    (mask / face_weight(face)) % 2 == 0
}

/// The vertices that `mask` contributes for the first `faces` faces: the
/// vertices of each visible face, in face order.
pub open spec fn shape_below(mask: int, faces: int) -> Seq<Point<int>>
    decreases faces,
{
    if faces <= 0 {
        Seq::empty()
    } else if face_shown(mask, faces - 1) {
        shape_below(mask, faces - 1) + face_vertices(faces - 1)
    } else {
        shape_below(mask, faces - 1)
    }
}

/// The shape selected by a visibility mask.
pub open spec fn shape_vertices(mask: int) -> Seq<Point<int>> {
    shape_below(mask, 6)
}

/// Number of faces among the first `faces` that `mask` leaves visible.
pub open spec fn shown_faces(mask: int, faces: int) -> int
    decreases faces,
{
    if faces <= 0 {
        0
    } else if face_shown(mask, faces - 1) {
        shown_faces(mask, faces - 1) + 1
    } else {
        shown_faces(mask, faces - 1)
    }
}

/// The shape table: the shape of each of the 64 masks.
pub open spec fn shape_table() -> Seq<Seq<Point<int>>> {
    Seq::new(64, |mask: int| shape_vertices(mask))
}

/// The difference of two points, component by component.
pub open spec fn minus(a: Point<int>, b: Point<int>) -> Point<int> {
    Point { x: a.x - b.x, y: a.y - b.y, z: a.z - b.z }
}

/// The cross product of two displacements.
pub open spec fn cross(a: Point<int>, b: Point<int>) -> Point<int> {
    Point { x: a.y * b.z - a.z * b.y, y: a.z * b.x - a.x * b.z, z: a.x * b.y - a.y * b.x }
}

/// Whether a point lies in the plane of face `face` of the unit cube.
pub open spec fn on_face(point: Point<int>, face: int) -> bool {
    if face == 0 {
        point.z == 1
    } else if face == 1 {
        point.z == 0
    } else if face == 2 {
        point.y == 1
    } else if face == 3 {
        point.y == 0
    } else if face == 4 {
        point.x == 1
    } else {
        point.x == 0
    }
}

/// The corners of a shape as mathematical points.
pub open spec fn corners_view(corners: Seq<Point<u8>>) -> Seq<Point<int>> {
    corners.map_values(|corner: Point<u8>| corner@)
}

/// Every face is drawn by six vertices, each a corner of the unit cube.
pub proof fn lemma_face_vertices(face: int)
    requires
        0 <= face < 6,
    ensures
        face_vertices(face).len() == 6,
        forall|k: int| 0 <= k < 6 ==> is_unit_corner(#[trigger] face_vertices(face)[k]),
{
}

/// The six vertices of a face lie on that face and reach each of its four
/// corners, and both triangles are wound the same way on every face: the
/// cross product of the edges from a triangle's first vertex to its second
/// and to its third points from the face into the cube.
pub proof fn lemma_face_geometry(face: int)
    requires
        0 <= face < 6,
    ensures
        forall|k: int| 0 <= k < 6 ==> on_face(#[trigger] face_vertices(face)[k], face),
        forall|point: Point<int>|
            is_unit_corner(point) && #[trigger] on_face(point, face) ==> face_vertices(
                face,
            ).contains(point),
        forall|triangle: int|
            0 <= triangle < 2 ==> neighbor_offset(face).plus(
                cross(
                    minus(
                        face_vertices(face)[3 * triangle + 1],
                        #[trigger] face_vertices(face)[3 * triangle],
                    ),
                    minus(face_vertices(face)[3 * triangle + 2], face_vertices(face)[3 * triangle]),
                ),
            ) == corner(0, 0, 0),
{
    let vertices = face_vertices(face);
    if face == 0 {
        assert(cross(corner(0, -1, 0), corner(-1, -1, 0)) == corner(0, 0, -1)) by (nonlinear_arith);
        assert(cross(corner(-1, -1, 0), corner(-1, 0, 0)) == corner(0, 0, -1)) by (nonlinear_arith);
    } else if face == 1 {
        assert(cross(corner(0, -1, 0), corner(1, -1, 0)) == corner(0, 0, 1)) by (nonlinear_arith);
        assert(cross(corner(1, -1, 0), corner(1, 0, 0)) == corner(0, 0, 1)) by (nonlinear_arith);
    } else if face == 2 {
        assert(cross(corner(0, 0, 1), corner(-1, 0, 1)) == corner(0, -1, 0)) by (nonlinear_arith);
        assert(cross(corner(-1, 0, 1), corner(-1, 0, 0)) == corner(0, -1, 0)) by (nonlinear_arith);
    } else if face == 3 {
        assert(cross(corner(0, 0, 1), corner(1, 0, 1)) == corner(0, 1, 0)) by (nonlinear_arith);
        assert(cross(corner(1, 0, 1), corner(1, 0, 0)) == corner(0, 1, 0)) by (nonlinear_arith);
    } else if face == 4 {
        assert(cross(corner(0, -1, 0), corner(0, -1, 1)) == corner(-1, 0, 0)) by (nonlinear_arith);
        assert(cross(corner(0, -1, 1), corner(0, 0, 1)) == corner(-1, 0, 0)) by (nonlinear_arith);
    } else {
        assert(cross(corner(0, -1, 0), corner(0, -1, -1)) == corner(1, 0, 0)) by (nonlinear_arith);
        assert(cross(corner(0, -1, -1), corner(0, 0, -1)) == corner(1, 0, 0)) by (nonlinear_arith);
    }
    assert forall|point: Point<int>|
        is_unit_corner(point) && #[trigger] on_face(point, face) implies vertices.contains(
        point,
    ) by {
        assert(point == vertices[0] || point == vertices[1] || point == vertices[2] || point
            == vertices[5]);
    }
    assert forall|triangle: int| 0 <= triangle < 2 implies neighbor_offset(face).plus(
        cross(
            minus(vertices[3 * triangle + 1], #[trigger] vertices[3 * triangle]),
            minus(vertices[3 * triangle + 2], vertices[3 * triangle]),
        ),
    ) == corner(0, 0, 0) by {
        if triangle == 0 {
        } else {
        }
    }
}

/// A shape holds six vertices for each face that its mask leaves visible, and
/// nothing but corners of the unit cube.
pub proof fn lemma_shape_below(mask: int, faces: int)
    requires
        0 <= faces <= 6,
    ensures
        shape_below(mask, faces).len() == 6 * shown_faces(mask, faces),
        0 <= shown_faces(mask, faces) <= faces,
        forall|k: int|
            0 <= k < shape_below(mask, faces).len() ==> is_unit_corner(
                #[trigger] shape_below(mask, faces)[k],
            ),
    decreases faces,
{
    if faces > 0 {
        lemma_shape_below(mask, faces - 1);
        lemma_face_vertices(faces - 1);
    }
}

/// The length of every shape is a multiple of six and at most 36; the mask
/// with no bit set selects all 36 vertices and the mask with all six bits set
/// selects none.
pub proof fn lemma_shape_vertices(mask: int)
    ensures
        shape_vertices(mask).len() == 6 * shown_faces(mask, 6),
        shape_vertices(mask).len() % 3 == 0,
        shape_vertices(mask).len() <= 36,
        forall|k: int|
            0 <= k < shape_vertices(mask).len() ==> is_unit_corner(
                #[trigger] shape_vertices(mask)[k],
            ),
        mask == 0 ==> shape_vertices(mask).len() == 36,
        mask == 63 ==> shape_vertices(mask).len() == 0,
{
    lemma_shape_below(mask, 6);
    reveal_with_fuel(shown_faces, 7);
}

/// Bit `face` of a mask, read with a shift, is clear exactly when the mask
/// leaves the face visible.
pub proof fn lemma_face_bit(mask: usize, face: usize)
    requires
        mask < 64,
        face < 6,
    ensures
        ((mask >> face) & 1 == 0) == face_shown(mask as int, face as int),
{
    if face == 0 {
        assert(((mask >> 0usize) & 1 == 0) == ((mask / 1) % 2 == 0)) by (bit_vector);
    } else if face == 1 {
        assert(((mask >> 1usize) & 1 == 0) == ((mask / 2) % 2 == 0)) by (bit_vector);
    } else if face == 2 {
        assert(((mask >> 2usize) & 1 == 0) == ((mask / 4) % 2 == 0)) by (bit_vector);
    } else if face == 3 {
        assert(((mask >> 3usize) & 1 == 0) == ((mask / 8) % 2 == 0)) by (bit_vector);
    } else if face == 4 {
        assert(((mask >> 4usize) & 1 == 0) == ((mask / 16) % 2 == 0)) by (bit_vector);
    } else {
        assert(((mask >> 5usize) & 1 == 0) == ((mask / 32) % 2 == 0)) by (bit_vector);
    }
}

/// The vertices of face `face`, in the order in which they are emitted.
pub fn face_corners(face: usize) -> (corners: [Point<u8>; 6])
    requires
        face < 6,
    ensures
        corners_view(corners@) == face_vertices(face as int),
{
    let corners: [Point<u8>; 6] = if face == 0 {
        [
            Point { x: 1, y: 1, z: 1 },
            Point { x: 1, y: 0, z: 1 },
            Point { x: 0, y: 0, z: 1 },
            Point { x: 1, y: 1, z: 1 },
            Point { x: 0, y: 0, z: 1 },
            Point { x: 0, y: 1, z: 1 },
        ]
    } else if face == 1 {
        [
            Point { x: 0, y: 1, z: 0 },
            Point { x: 0, y: 0, z: 0 },
            Point { x: 1, y: 0, z: 0 },
            Point { x: 0, y: 1, z: 0 },
            Point { x: 1, y: 0, z: 0 },
            Point { x: 1, y: 1, z: 0 },
        ]
    } else if face == 2 {
        [
            Point { x: 1, y: 1, z: 0 },
            Point { x: 1, y: 1, z: 1 },
            Point { x: 0, y: 1, z: 1 },
            Point { x: 1, y: 1, z: 0 },
            Point { x: 0, y: 1, z: 1 },
            Point { x: 0, y: 1, z: 0 },
        ]
    } else if face == 3 {
        [
            Point { x: 0, y: 0, z: 0 },
            Point { x: 0, y: 0, z: 1 },
            Point { x: 1, y: 0, z: 1 },
            Point { x: 0, y: 0, z: 0 },
            Point { x: 1, y: 0, z: 1 },
            Point { x: 1, y: 0, z: 0 },
        ]
    } else if face == 4 {
        [
            Point { x: 1, y: 1, z: 0 },
            Point { x: 1, y: 0, z: 0 },
            Point { x: 1, y: 0, z: 1 },
            Point { x: 1, y: 1, z: 0 },
            Point { x: 1, y: 0, z: 1 },
            Point { x: 1, y: 1, z: 1 },
        ]
    } else {
        [
            Point { x: 0, y: 1, z: 1 },
            Point { x: 0, y: 0, z: 1 },
            Point { x: 0, y: 0, z: 0 },
            Point { x: 0, y: 1, z: 1 },
            Point { x: 0, y: 0, z: 0 },
            Point { x: 0, y: 1, z: 0 },
        ]
    };
    assert(corners_view(corners@) =~= face_vertices(face as int));
    corners
}

/// The displacement to the neighbor across face `face`.
pub fn neighbor_step(face: usize) -> (step: Point<i8>)
    requires
        face < 6,
    ensures
        step@ == neighbor_offset(face as int),
{
    if face == 0 {
        Point { x: 0, y: 0, z: 1 }
    } else if face == 1 {
        Point { x: 0, y: 0, z: -1 }
    } else if face == 2 {
        Point { x: 0, y: 1, z: 0 }
    } else if face == 3 {
        Point { x: 0, y: -1, z: 0 }
    } else if face == 4 {
        Point { x: 1, y: 0, z: 0 }
    } else {
        Point { x: -1, y: 0, z: 0 }
    }
}

/// Builds the shape table: entry `mask` holds, for each face whose bit in
/// `mask` is clear, that face's six vertices, faces in ascending order.
pub fn get_shapes() -> (shapes: Vec<Shape>)
    ensures
        shapes.len() == 64,
        forall|mask: int|
            0 <= mask < 64 ==> corners_view(#[trigger] shapes[mask]@) == shape_vertices(mask),
{
    let mut shapes: Vec<Shape> = Vec::new();
    for i in 0..SHAPE_COUNT
        invariant
            shapes.len() == i,
            forall|mask: int|
                0 <= mask < i ==> corners_view(#[trigger] shapes[mask]@) == shape_vertices(mask),
    {
        let mut shape: Vec<Point<u8>> = Vec::new();
        for face_index in 0..FACE_COUNT
            invariant
                i < 64,
                corners_view(shape@) == shape_below(i as int, face_index as int),
        {
            proof {
                lemma_face_bit(i, face_index);
            }
            if (i >> face_index) & 0b1 == 0 {
                let corners = face_corners(face_index);
                let ghost before = shape@;
                for k in 0..FACE_VERTEX_COUNT
                    invariant
                        shape@ == before + corners@.take(k as int),
                {
                    shape.push(corners[k]);
                    assert(corners@.take(k + 1) == corners@.take(k as int).push(
                        corners@[k as int],
                    ));
                }
                assert(corners@.take(6) == corners@);
                assert(corners_view(shape@) == corners_view(before) + corners_view(corners@));
            }
        }
        shapes.push(shape);
    }
    shapes
}

} // verus!
