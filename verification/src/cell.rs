//! Faces of a hexahedral cell and the order in which their corners are
//! emitted.
//!
//! A cuboid and one segment of an annulus are both cells with eight corners,
//! each corner picking the near or far end of three axes. For the cuboid the
//! axes are x, y and z; for an annulus segment they are radius (inner/outer),
//! angle (start/end of the segment) and depth (back/front), which in that
//! order also form a right-handed frame.

use vstd::prelude::*;
use crate::topology::{ANNULUS_FACES, CUBOID_FACES};

verus! {

/// A corner of a cell: for each axis, whether it lies at the far end.
#[derive(Clone, Copy, Debug, PartialEq, Eq, Structural)]
pub struct CellCorner {
    pub x: bool,
    pub y: bool,
    pub z: bool,
}

/// An axis of a cell.
#[derive(Clone, Copy, Debug, PartialEq, Eq, Structural)]
pub enum Axis {
    X,
    Y,
    Z,
}

/// A quad face of a cell: its corners in emission order, the axis it is
/// perpendicular to and whether its outward normal points to the far end of
/// that axis.
#[derive(Clone, Copy, Debug)]
pub struct CellFace {
    pub corners: [CellCorner; 4],
    pub axis: Axis,
    pub far: bool,
}

/// A point with integer coordinates.
pub struct Point3 {
    pub x: int,
    pub y: int,
    pub z: int,
}

pub open spec fn unit(b: bool) -> int {
    if b {
        1
    } else {
        0
    }
}

/// Position of a corner in the unit cube.
pub open spec fn corner_point(c: CellCorner) -> Point3 {
    Point3 { x: unit(c.x), y: unit(c.y), z: unit(c.z) }
}

pub open spec fn minus(a: Point3, b: Point3) -> Point3 {
    Point3 { x: a.x - b.x, y: a.y - b.y, z: a.z - b.z }
}

/// Product of two coordinates of the unit cube's edge vectors, which lie in
/// `-1..=1`.
pub open spec fn times(a: int, b: int) -> int {
    if a == 0 || b == 0 {
        0
    } else if a == b {
        1
    } else {
        -1
    }
}

/// On `-1..=1`, [`times`] is the product.
pub proof fn lemma_times_is_product(a: int, b: int)
    requires
        -1 <= a <= 1,
        -1 <= b <= 1,
    ensures
        times(a, b) == a * b,
{
    if a == -1 {
        if b == -1 { assert(a * b == 1) by (nonlinear_arith) requires a == -1 && b == -1; }
        else if b == 1 { assert(a * b == -1) by (nonlinear_arith) requires a == -1 && b == 1; }
    } else if a == 1 {
        if b == -1 { assert(a * b == -1) by (nonlinear_arith) requires a == 1 && b == -1; }
        else if b == 1 { assert(a * b == 1) by (nonlinear_arith) requires a == 1 && b == 1; }
    }
}

/// Cross product of two edge vectors of the unit cube.
pub open spec fn cross(a: Point3, b: Point3) -> Point3 {
    Point3 {
        x: times(a.y, b.z) - times(a.z, b.y),
        y: times(a.z, b.x) - times(a.x, b.z),
        z: times(a.x, b.y) - times(a.y, b.x),
    }
}

/// Unit vector along `axis`, towards its far end when `far`.
pub open spec fn axis_direction(axis: Axis, far: bool) -> Point3 {
    let s = if far {
        1int
    } else {
        -1int
    };
    match axis {
        Axis::X => Point3 { x: s, y: 0, z: 0 },
        Axis::Y => Point3 { x: 0, y: s, z: 0 },
        Axis::Z => Point3 { x: 0, y: 0, z: s },
    }
}

/// Whether the corner lies on the side of the cell that `axis` and `far`
/// name.
pub open spec fn on_side(c: CellCorner, axis: Axis, far: bool) -> bool {
    match axis {
        Axis::X => c.x == far,
        Axis::Y => c.y == far,
        Axis::Z => c.z == far,
    }
}

/// The normal of triangle `(a, b, c)` by the right-hand rule.
pub open spec fn triangle_normal(a: CellCorner, b: CellCorner, c: CellCorner) -> Point3 {
    cross(minus(corner_point(b), corner_point(a)), minus(corner_point(c), corner_point(a)))
}

/// The face is a proper quad on its side of the cell, and both triangles
/// `(0, 1, 2)` and `(0, 2, 3)` that a quad is split into are wound
/// counter-clockwise seen from outside: their normals point outward.
pub open spec fn winds_outward(f: CellFace) -> bool {
    let c = f.corners@;
    let out = axis_direction(f.axis, f.far);
    &&& forall|k: int| 0 <= k < 4 ==> on_side(#[trigger] c[k], f.axis, f.far)
    &&& forall|j: int, k: int| 0 <= j < k < 4 ==> c[j] != c[k]
    &&& triangle_normal(c[0], c[1], c[2]) == out
    &&& triangle_normal(c[0], c[2], c[3]) == out
}

/// Every face of the list winds outward, and no two faces share a side.
pub open spec fn closed_winding(faces: Seq<CellFace>) -> bool {
    &&& forall|i: int| 0 <= i < faces.len() ==> winds_outward(#[trigger] faces[i])
    &&& forall|i: int, j: int|
        0 <= i < j < faces.len() ==> (faces[i].axis != faces[j].axis || faces[i].far
            != faces[j].far)
}

pub open spec fn corner(x: bool, y: bool, z: bool) -> CellCorner {
    CellCorner { x, y, z }
}

/// The six faces of a cuboid, in emission order: +z, -z, -x, +x, +y, -y.
pub open spec fn spec_cuboid_faces() -> Seq<CellFace> {
    seq![
        CellFace {
            corners: [
                corner(false, false, true),
                corner(true, false, true),
                corner(true, true, true),
                corner(false, true, true),
            ],
            axis: Axis::Z,
            far: true,
        },
        CellFace {
            corners: [
                corner(true, false, false),
                corner(false, false, false),
                corner(false, true, false),
                corner(true, true, false),
            ],
            axis: Axis::Z,
            far: false,
        },
        CellFace {
            corners: [
                corner(false, false, false),
                corner(false, false, true),
                corner(false, true, true),
                corner(false, true, false),
            ],
            axis: Axis::X,
            far: false,
        },
        CellFace {
            corners: [
                corner(true, false, true),
                corner(true, false, false),
                corner(true, true, false),
                corner(true, true, true),
            ],
            axis: Axis::X,
            far: true,
        },
        CellFace {
            corners: [
                corner(false, true, false),
                corner(false, true, true),
                corner(true, true, true),
                corner(true, true, false),
            ],
            axis: Axis::Y,
            far: true,
        },
        CellFace {
            corners: [
                corner(false, false, false),
                corner(true, false, false),
                corner(true, false, true),
                corner(false, false, true),
            ],
            axis: Axis::Y,
            far: false,
        },
    ]
}

/// The four faces of an annulus segment, in emission order: outer wall
/// (+radius), inner wall (-radius), front ring (+depth), back ring (-depth).
pub open spec fn spec_annulus_faces() -> Seq<CellFace> {
    seq![
        CellFace {
            corners: [
                corner(true, false, false),
                corner(true, true, false),
                corner(true, true, true),
                corner(true, false, true),
            ],
            axis: Axis::X,
            far: true,
        },
        CellFace {
            corners: [
                corner(false, false, false),
                corner(false, false, true),
                corner(false, true, true),
                corner(false, true, false),
            ],
            axis: Axis::X,
            far: false,
        },
        CellFace {
            corners: [
                corner(false, false, true),
                corner(true, false, true),
                corner(true, true, true),
                corner(false, true, true),
            ],
            axis: Axis::Z,
            far: true,
        },
        CellFace {
            corners: [
                corner(false, false, false),
                corner(false, true, false),
                corner(true, true, false),
                corner(true, false, false),
            ],
            axis: Axis::Z,
            far: false,
        },
    ]
}

fn make_corner(x: bool, y: bool, z: bool) -> (c: CellCorner)
    ensures
        c == corner(x, y, z),
{
    CellCorner { x, y, z }
}

fn make_face(a: CellCorner, b: CellCorner, c: CellCorner, d: CellCorner, axis: Axis, far: bool) -> (f: CellFace)
    ensures
        f.corners@ == seq![a, b, c, d],
        f.axis == axis,
        f.far == far,
{
    let f = CellFace { corners: [a, b, c, d], axis, far };
    assert(f.corners@ =~= seq![a, b, c, d]);
    f
}

pub open spec fn same_face(f: CellFace, g: CellFace) -> bool {
    f.corners@ == g.corners@ && f.axis == g.axis && f.far == g.far
}

/// Faces of a cuboid in emission order.
pub fn cuboid_faces() -> (faces: Vec<CellFace>)
    ensures
        faces.len() == CUBOID_FACES,
        forall|i: int| 0 <= i < 6 ==> same_face(#[trigger] faces[i], spec_cuboid_faces()[i]),
        faces[0].axis == Axis::Z && faces[0].far,
        faces[1].axis == Axis::Z && !faces[1].far,
        faces[2].axis == Axis::X && !faces[2].far,
        faces[3].axis == Axis::X && faces[3].far,
        faces[4].axis == Axis::Y && faces[4].far,
        faces[5].axis == Axis::Y && !faces[5].far,
{
    let mut faces: Vec<CellFace> = Vec::new();
    faces.push(make_face(make_corner(false, false, true), make_corner(true, false, true), make_corner(true, true, true), make_corner(false, true, true), Axis::Z, true));
    faces.push(make_face(make_corner(true, false, false), make_corner(false, false, false), make_corner(false, true, false), make_corner(true, true, false), Axis::Z, false));
    faces.push(make_face(make_corner(false, false, false), make_corner(false, false, true), make_corner(false, true, true), make_corner(false, true, false), Axis::X, false));
    faces.push(make_face(make_corner(true, false, true), make_corner(true, false, false), make_corner(true, true, false), make_corner(true, true, true), Axis::X, true));
    faces.push(make_face(make_corner(false, true, false), make_corner(false, true, true), make_corner(true, true, true), make_corner(true, true, false), Axis::Y, true));
    faces.push(make_face(make_corner(false, false, false), make_corner(true, false, false), make_corner(true, false, true), make_corner(false, false, true), Axis::Y, false));
    faces
}

/// Faces of an annulus segment in emission order.
pub fn annulus_faces() -> (faces: Vec<CellFace>)
    ensures
        faces.len() == ANNULUS_FACES,
        forall|i: int| 0 <= i < 4 ==> same_face(#[trigger] faces[i], spec_annulus_faces()[i]),
        faces[0].axis == Axis::X && faces[0].far,
        faces[1].axis == Axis::X && !faces[1].far,
        faces[2].axis == Axis::Z && faces[2].far,
        faces[3].axis == Axis::Z && !faces[3].far,
        forall|i: int| 0 <= i < 4 ==> (#[trigger] faces[i]).axis != Axis::Y,
{
    let mut faces: Vec<CellFace> = Vec::new();
    faces.push(make_face(make_corner(true, false, false), make_corner(true, true, false), make_corner(true, true, true), make_corner(true, false, true), Axis::X, true));
    faces.push(make_face(make_corner(false, false, false), make_corner(false, false, true), make_corner(false, true, true), make_corner(false, true, false), Axis::X, false));
    faces.push(make_face(make_corner(false, false, true), make_corner(true, false, true), make_corner(true, true, true), make_corner(false, true, true), Axis::Z, true));
    faces.push(make_face(make_corner(false, false, false), make_corner(false, true, false), make_corner(true, true, false), make_corner(true, false, false), Axis::Z, false));
    faces
}

proof fn lemma_face_winds(a: CellCorner, b: CellCorner, c: CellCorner, d: CellCorner, axis: Axis, far: bool)
    requires
        on_side(a, axis, far),
        on_side(b, axis, far),
        on_side(c, axis, far),
        on_side(d, axis, far),
        a != b && a != c && a != d && b != c && b != d && c != d,
        triangle_normal(a, b, c) == axis_direction(axis, far),
        triangle_normal(a, c, d) == axis_direction(axis, far),
    ensures
        winds_outward(CellFace { corners: [a, b, c, d], axis, far }),
{
    let f = CellFace { corners: [a, b, c, d], axis, far };
    assert(f.corners@ =~= seq![a, b, c, d]);
}

/// Each face of a cuboid is a quad on its own side of the box, and the two
/// triangles it is drawn with face outward.
pub proof fn lemma_cuboid_faces_wind_outward()
    ensures
        closed_winding(spec_cuboid_faces()),
        spec_cuboid_faces().len() == CUBOID_FACES,
{
    lemma_face_winds(corner(false, false, true), corner(true, false, true), corner(true, true, true), corner(false, true, true), Axis::Z, true);
    lemma_face_winds(corner(true, false, false), corner(false, false, false), corner(false, true, false), corner(true, true, false), Axis::Z, false);
    lemma_face_winds(corner(false, false, false), corner(false, false, true), corner(false, true, true), corner(false, true, false), Axis::X, false);
    lemma_face_winds(corner(true, false, true), corner(true, false, false), corner(true, true, false), corner(true, true, true), Axis::X, true);
    lemma_face_winds(corner(false, true, false), corner(false, true, true), corner(true, true, true), corner(true, true, false), Axis::Y, true);
    lemma_face_winds(corner(false, false, false), corner(true, false, false), corner(true, false, true), corner(false, false, true), Axis::Y, false);
}

/// Each face of an annulus segment is a quad on its own side of the segment,
/// and the two triangles it is drawn with face outward.
pub proof fn lemma_annulus_faces_wind_outward()
    ensures
        closed_winding(spec_annulus_faces()),
        spec_annulus_faces().len() == ANNULUS_FACES,
{
    lemma_face_winds(corner(true, false, false), corner(true, true, false), corner(true, true, true), corner(true, false, true), Axis::X, true);
    lemma_face_winds(corner(false, false, false), corner(false, false, true), corner(false, true, true), corner(false, true, false), Axis::X, false);
    lemma_face_winds(corner(false, false, true), corner(true, false, true), corner(true, true, true), corner(false, true, true), Axis::Z, true);
    lemma_face_winds(corner(false, false, false), corner(false, true, false), corner(true, true, false), corner(true, false, false), Axis::Z, false);
}

/// The faces of an annulus segment are, in order, its outer wall, inner
/// wall, front ring and back ring: the sides radius-far, radius-near,
/// depth-far and depth-near. No face closes the segment along the angle, so
/// the segments join into a ring open only at its hole.
pub proof fn lemma_annulus_face_sides()
    ensures
        spec_annulus_faces().len() == 4,
        spec_annulus_faces()[0].axis == Axis::X && spec_annulus_faces()[0].far,
        spec_annulus_faces()[1].axis == Axis::X && !spec_annulus_faces()[1].far,
        spec_annulus_faces()[2].axis == Axis::Z && spec_annulus_faces()[2].far,
        spec_annulus_faces()[3].axis == Axis::Z && !spec_annulus_faces()[3].far,
        forall|i: int| 0 <= i < 4 ==> (#[trigger] spec_annulus_faces()[i]).axis != Axis::Y,
{
}

/// The faces of a cuboid are, in order, its +z, -z, -x, +x, +y and -y sides:
/// all six sides, each once.
pub proof fn lemma_cuboid_face_sides()
    ensures
        spec_cuboid_faces().len() == 6,
        spec_cuboid_faces()[0].axis == Axis::Z && spec_cuboid_faces()[0].far,
        spec_cuboid_faces()[1].axis == Axis::Z && !spec_cuboid_faces()[1].far,
        spec_cuboid_faces()[2].axis == Axis::X && !spec_cuboid_faces()[2].far,
        spec_cuboid_faces()[3].axis == Axis::X && spec_cuboid_faces()[3].far,
        spec_cuboid_faces()[4].axis == Axis::Y && spec_cuboid_faces()[4].far,
        spec_cuboid_faces()[5].axis == Axis::Y && !spec_cuboid_faces()[5].far,
{
}

} // verus!
