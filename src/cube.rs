//! Geometry of the axis-aligned cube with corners at (±1, ±1, ±1).
use vstd::prelude::*;

verus! {

/// A point or vector with integer coordinates.
#[derive(Clone, Copy, Debug, PartialEq, Eq, Structural)]
pub struct Point3 {
    pub x: i64,
    pub y: i64,
    pub z: i64,
}

/// Builds a point from its three coordinates.
pub open spec fn pt(x: int, y: int, z: int) -> Point3 {
    Point3 { x: x as i64, y: y as i64, z: z as i64 }
}

/// Corner `i` of the cube (`0 <= i < 24`): face `i / 4`, position `i % 4`
/// on that face. Faces are +X, -X, +Y, -Y, +Z, -Z in that order; the four
/// corners of a face wind around it as a quad.
pub open spec fn corner_table(i: int) -> Point3 {
    if i == 0 { pt(1, -1, 1) }
    else if i == 1 { pt(1, -1, -1) }
    else if i == 2 { pt(1, 1, -1) }
    else if i == 3 { pt(1, 1, 1) }
    else if i == 4 { pt(-1, -1, -1) }
    else if i == 5 { pt(-1, -1, 1) }
    else if i == 6 { pt(-1, 1, 1) }
    else if i == 7 { pt(-1, 1, -1) }
    else if i == 8 { pt(1, 1, -1) }
    else if i == 9 { pt(-1, 1, -1) }
    else if i == 10 { pt(-1, 1, 1) }
    else if i == 11 { pt(1, 1, 1) }
    else if i == 12 { pt(-1, -1, -1) }
    else if i == 13 { pt(1, -1, -1) }
    else if i == 14 { pt(1, -1, 1) }
    else if i == 15 { pt(-1, -1, 1) }
    else if i == 16 { pt(-1, -1, 1) }
    else if i == 17 { pt(1, -1, 1) }
    else if i == 18 { pt(1, 1, 1) }
    else if i == 19 { pt(-1, 1, 1) }
    else if i == 20 { pt(1, -1, -1) }
    else if i == 21 { pt(-1, -1, -1) }
    else if i == 22 { pt(-1, 1, -1) }
    else { pt(1, 1, -1) }
}

/// Corner `i` of the cube, decoded from the bits of `i`: bit 2 gives the sign
/// of the face, bits 3 and 4 its axis, bits 0 and 1 the position on the face.
pub fn math_cubemap_corner(i: i32) -> (r: Point3)
    requires
        0 <= i < 24,
    ensures
        r == corner_table(i as int),
{
    let neg: i64 = if (i / 4) % 2 == 0 { 1 } else { -1 };
    let nx: i32 = ((i + 24) / 16) % 2;
    let ny: i32 = (i / 8) % 2;
    let nz: i32 = (i / 16) % 2;
    let u: i32 = ((i + 1) / 2) % 2;
    let v: i32 = (i / 2) % 2;
    let x: i64 = if nx != 0 {
        neg
    } else if ny != 0 {
        if u != 0 { -neg } else { neg }
    } else {
        if u != 0 { neg } else { -neg }
    };
    let y: i64 = if nx != 0 || nz != 0 {
        if v != 0 { 1 } else { -1 }
    } else {
        neg
    };
    let z: i64 = if nx != 0 {
        if u != 0 { -neg } else { neg }
    } else if ny != 0 {
        if v != 0 { 1 } else { -1 }
    } else {
        neg
    };
    Point3 { x, y, z }
}


/// Each coordinate of `p` is 1 or -1.
pub open spec fn is_cube_vertex(p: Point3) -> bool {
    &&& (p.x == 1 || p.x == -1)
    &&& (p.y == 1 || p.y == -1)
    &&& (p.z == 1 || p.z == -1)
}

/// The eight vertices of the cube.
pub open spec fn cube_vertices() -> Set<Point3> {
    set![
        pt(1, 1, 1), pt(1, 1, -1), pt(1, -1, 1), pt(1, -1, -1),
        pt(-1, 1, 1), pt(-1, 1, -1), pt(-1, -1, 1), pt(-1, -1, -1),
    ]
}

/// The positions that the 24 face-corner indices give, duplicates merged.
pub open spec fn corner_positions() -> Set<Point3> {
    Set::new(|p: Point3| exists|i: int| 0 <= i < 24 && corner_table(i) == p)
}

/// Evaluating all 24 face-corner indices and merging duplicates leaves
/// exactly the eight vertices of the cube, each coordinate -1 or 1.
pub proof fn lemma_corners_are_cube_vertices()
    ensures
        corner_positions() == cube_vertices(),
        corner_positions().len() == 8,
        forall|p: Point3| corner_positions().contains(p) ==> is_cube_vertex(p),
{
    assert forall|p: Point3| corner_positions().contains(p) implies cube_vertices().contains(p) by {
        let i = choose|i: int| 0 <= i < 24 && corner_table(i) == p;
        assert(0 <= i < 24 && corner_table(i) == p);
    }
    assert forall|p: Point3| cube_vertices().contains(p) implies corner_positions().contains(p) by {
        if p == pt(1, 1, 1) {
            assert(corner_table(3) == p);
        } else if p == pt(1, 1, -1) {
            assert(corner_table(2) == p);
        } else if p == pt(1, -1, 1) {
            assert(corner_table(0) == p);
        } else if p == pt(1, -1, -1) {
            assert(corner_table(1) == p);
        } else if p == pt(-1, 1, 1) {
            assert(corner_table(6) == p);
        } else if p == pt(-1, 1, -1) {
            assert(corner_table(7) == p);
        } else if p == pt(-1, -1, 1) {
            assert(corner_table(5) == p);
        } else {
            assert(corner_table(4) == p);
        }
    }
    assert(corner_positions() =~= cube_vertices());
    assert(cube_vertices().len() == 8);
}


/// Largest magnitude of a coordinate that plane construction accepts, so that
/// every product it forms fits in 64 bits.
pub const COORD_LIMIT: i64 = 32768;

/// A plane `dot(normal, P) + offset == 0`. The normal is the cross product of
/// two edge vectors and is not scaled to unit length: scaling the pair
/// `(normal, offset)` by a positive factor leaves the plane, its sides and
/// every ray-plane intersection parameter unchanged.
#[derive(Clone, Copy, Debug, PartialEq, Eq, Structural)]
pub struct Plane {
    pub normal: Point3,
    pub offset: i64,
}

/// All coordinates of `p` lie within `COORD_LIMIT`.
pub open spec fn in_coord_range(p: Point3) -> bool {
    &&& -COORD_LIMIT <= p.x <= COORD_LIMIT
    &&& -COORD_LIMIT <= p.y <= COORD_LIMIT
    &&& -COORD_LIMIT <= p.z <= COORD_LIMIT
}

/// Dot product.
pub open spec fn dot(a: Point3, b: Point3) -> int {
    a.x * b.x + a.y * b.y + a.z * b.z
}

/// The cross product `(p2 - p1) x (p3 - p1)`, one coordinate at a time.
pub open spec fn edge_cross_x(p1: Point3, p2: Point3, p3: Point3) -> int {
    (p2.y - p1.y) * (p3.z - p1.z) - (p2.z - p1.z) * (p3.y - p1.y)
}

pub open spec fn edge_cross_y(p1: Point3, p2: Point3, p3: Point3) -> int {
    (p2.z - p1.z) * (p3.x - p1.x) - (p2.x - p1.x) * (p3.z - p1.z)
}

pub open spec fn edge_cross_z(p1: Point3, p2: Point3, p3: Point3) -> int {
    (p2.x - p1.x) * (p3.y - p1.y) - (p2.y - p1.y) * (p3.x - p1.x)
}

/// `p` lies on `plane`.
pub open spec fn on_plane(plane: Plane, p: Point3) -> bool {
    dot(plane.normal, p) + plane.offset == 0
}

proof fn lemma_mul_bound(a: int, b: int, m: int, n: int)
    requires
        -m <= a <= m,
        -n <= b <= n,
    ensures
        -(m * n) <= a * b <= m * n,
{
    assert(-(m * n) <= a * b <= m * n) by (nonlinear_arith)
        requires
            -m <= a <= m,
            -n <= b <= n,
    ;
}

proof fn lemma_cross_orthogonal(ax: int, ay: int, az: int, bx: int, by: int, bz: int)
    ensures
        (ay * bz - az * by) * ax + (az * bx - ax * bz) * ay + (ax * by - ay * bx) * az == 0,
        (ay * bz - az * by) * bx + (az * bx - ax * bz) * by + (ax * by - ay * bx) * bz == 0,
{
    assert((ay * bz - az * by) * ax + (az * bx - ax * bz) * ay + (ax * by - ay * bx) * az == 0)
        by (nonlinear_arith);
    assert((ay * bz - az * by) * bx + (az * bx - ax * bz) * by + (ax * by - ay * bx) * bz == 0)
        by (nonlinear_arith);
}

/// The plane through `p1`, `p2` and `p3`, with normal `(p2 - p1) x (p3 - p1)`.
/// Collinear points give the zero normal, whose "plane" holds every point.
pub fn plane_from_points(p1: Point3, p2: Point3, p3: Point3) -> (r: Plane)
    requires
        in_coord_range(p1),
        in_coord_range(p2),
        in_coord_range(p3),
    ensures
        r.normal.x == edge_cross_x(p1, p2, p3),
        r.normal.y == edge_cross_y(p1, p2, p3),
        r.normal.z == edge_cross_z(p1, p2, p3),
        r.offset == -dot(r.normal, p1),
        on_plane(r, p1),
        on_plane(r, p2),
        on_plane(r, p3),
{
    let ax = p2.x - p1.x;
    let ay = p2.y - p1.y;
    let az = p2.z - p1.z;
    let bx = p3.x - p1.x;
    let by = p3.y - p1.y;
    let bz = p3.z - p1.z;
    let ghost lim: int = 2 * COORD_LIMIT;
    proof {
        lemma_mul_bound(ay as int, bz as int, lim, lim);
        lemma_mul_bound(az as int, by as int, lim, lim);
        lemma_mul_bound(az as int, bx as int, lim, lim);
        lemma_mul_bound(ax as int, bz as int, lim, lim);
        lemma_mul_bound(ax as int, by as int, lim, lim);
        lemma_mul_bound(ay as int, bx as int, lim, lim);
    }
    let nx = ay * bz - az * by;
    let ny = az * bx - ax * bz;
    let nz = ax * by - ay * bx;
    let ghost nlim: int = 2 * lim * lim;
    proof {
        lemma_mul_bound(nx as int, p1.x as int, nlim, COORD_LIMIT as int);
        lemma_mul_bound(ny as int, p1.y as int, nlim, COORD_LIMIT as int);
        lemma_mul_bound(nz as int, p1.z as int, nlim, COORD_LIMIT as int);
        lemma_cross_orthogonal(ax as int, ay as int, az as int, bx as int, by as int, bz as int);
    }
    let normal = Point3 { x: nx, y: ny, z: nz };
    let offset = -(nx * p1.x + ny * p1.y + nz * p1.z);
    let r = Plane { normal, offset };
    proof {
        assert(dot(normal, p2) - dot(normal, p1) == nx * ax + ny * ay + nz * az) by (nonlinear_arith)
            requires
                normal.x == nx,
                normal.y == ny,
                normal.z == nz,
                ax == p2.x - p1.x,
                ay == p2.y - p1.y,
                az == p2.z - p1.z,
        ;
        assert(dot(normal, p3) - dot(normal, p1) == nx * bx + ny * by + nz * bz) by (nonlinear_arith)
            requires
                normal.x == nx,
                normal.y == ny,
                normal.z == nz,
                bx == p3.x - p1.x,
                by == p3.y - p1.y,
                bz == p3.z - p1.z,
        ;
    }
    r
}


/// Number of faces of a cube map.
pub const FACE_COUNT: u32 = 6;

/// Outward unit direction of face `f`: +X, -X, +Y, -Y, +Z, -Z in that order.
pub open spec fn face_direction(f: int) -> Point3 {
    if f == 0 { pt(1, 0, 0) }
    else if f == 1 { pt(-1, 0, 0) }
    else if f == 2 { pt(0, 1, 0) }
    else if f == 3 { pt(0, -1, 0) }
    else if f == 4 { pt(0, 0, 1) }
    else { pt(0, 0, -1) }
}

/// The four corners of face `face`, in winding order.
pub fn face_corners(face: u32) -> (r: (Point3, Point3, Point3, Point3))
    requires
        face < FACE_COUNT,
    ensures
        r.0 == corner_table(4 * face),
        r.1 == corner_table(4 * face + 1),
        r.2 == corner_table(4 * face + 2),
        r.3 == corner_table(4 * face + 3),
{
    let base = (face * 4) as i32;
    (
        math_cubemap_corner(base),
        math_cubemap_corner(base + 1),
        math_cubemap_corner(base + 2),
        math_cubemap_corner(base + 3),
    )
}

/// The bounding plane of face `face`, built from its first three corners. Its
/// normal is four times the face's outward direction, so the plane is
/// `dot(face_direction(face), P) == 1`.
pub fn face_plane(face: u32) -> (r: Plane)
    requires
        face < FACE_COUNT,
    ensures
        r.normal.x == 4 * face_direction(face as int).x,
        r.normal.y == 4 * face_direction(face as int).y,
        r.normal.z == 4 * face_direction(face as int).z,
        r.offset == -4,
        on_plane(r, corner_table(4 * face)),
        on_plane(r, corner_table(4 * face + 1)),
        on_plane(r, corner_table(4 * face + 2)),
        on_plane(r, corner_table(4 * face + 3)),
{
    let (p1, p2, p3, _p4) = face_corners(face);
    let r = plane_from_points(p1, p2, p3);
    proof {
        if face == 0 {
            assert(p1 == pt(1, -1, 1) && p2 == pt(1, -1, -1) && p3 == pt(1, 1, -1));
            assert(edge_cross_x(p1, p2, p3) == 4 && edge_cross_y(p1, p2, p3) == 0
                && edge_cross_z(p1, p2, p3) == 0 && dot(pt(4, 0, 0), p1) == 4)
                by (nonlinear_arith)
                requires
                    p1 == pt(1, -1, 1) && p2 == pt(1, -1, -1) && p3 == pt(1, 1, -1),
            ;
        } else if face == 1 {
            assert(p1 == pt(-1, -1, -1) && p2 == pt(-1, -1, 1) && p3 == pt(-1, 1, 1));
            assert(edge_cross_x(p1, p2, p3) == -4 && edge_cross_y(p1, p2, p3) == 0
                && edge_cross_z(p1, p2, p3) == 0 && dot(pt(-4, 0, 0), p1) == 4)
                by (nonlinear_arith)
                requires
                    p1 == pt(-1, -1, -1) && p2 == pt(-1, -1, 1) && p3 == pt(-1, 1, 1),
            ;
        } else if face == 2 {
            assert(p1 == pt(1, 1, -1) && p2 == pt(-1, 1, -1) && p3 == pt(-1, 1, 1));
            assert(edge_cross_x(p1, p2, p3) == 0 && edge_cross_y(p1, p2, p3) == 4
                && edge_cross_z(p1, p2, p3) == 0 && dot(pt(0, 4, 0), p1) == 4)
                by (nonlinear_arith)
                requires
                    p1 == pt(1, 1, -1) && p2 == pt(-1, 1, -1) && p3 == pt(-1, 1, 1),
            ;
        } else if face == 3 {
            assert(p1 == pt(-1, -1, -1) && p2 == pt(1, -1, -1) && p3 == pt(1, -1, 1));
            assert(edge_cross_x(p1, p2, p3) == 0 && edge_cross_y(p1, p2, p3) == -4
                && edge_cross_z(p1, p2, p3) == 0 && dot(pt(0, -4, 0), p1) == 4)
                by (nonlinear_arith)
                requires
                    p1 == pt(-1, -1, -1) && p2 == pt(1, -1, -1) && p3 == pt(1, -1, 1),
            ;
        } else if face == 4 {
            assert(p1 == pt(-1, -1, 1) && p2 == pt(1, -1, 1) && p3 == pt(1, 1, 1));
            assert(edge_cross_x(p1, p2, p3) == 0 && edge_cross_y(p1, p2, p3) == 0
                && edge_cross_z(p1, p2, p3) == 4 && dot(pt(0, 0, 4), p1) == 4)
                by (nonlinear_arith)
                requires
                    p1 == pt(-1, -1, 1) && p2 == pt(1, -1, 1) && p3 == pt(1, 1, 1),
            ;
        } else {
            assert(p1 == pt(1, -1, -1) && p2 == pt(-1, -1, -1) && p3 == pt(-1, 1, -1));
            assert(edge_cross_x(p1, p2, p3) == 0 && edge_cross_y(p1, p2, p3) == 0
                && edge_cross_z(p1, p2, p3) == -4 && dot(pt(0, 0, -4), p1) == 4)
                by (nonlinear_arith)
                requires
                    p1 == pt(1, -1, -1) && p2 == pt(-1, -1, -1) && p3 == pt(-1, 1, -1),
            ;
        }
    }
    r
}

} // verus!
