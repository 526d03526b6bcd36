//! Integer layout of a cube-map raster: the side length of a face, where each
//! pixel centre lands on the cube, and the order of pixels and bytes in the
//! output buffer.
use vstd::prelude::*;
use vstd::arithmetic::div_mod::{lemma_fundamental_div_mod_converse, lemma_mod_pos_bound, lemma_multiply_divide_lt};
use crate::cube::{corner_table, face_corners, Point3, FACE_COUNT};

verus! {

/// `2^k`.
pub open spec fn pow2(k: nat) -> nat
    decreases k,
{
    if k == 0 {
        1
    } else {
        2 * pow2((k - 1) as nat)
    }
}

/// `n` is a power of two.
pub open spec fn is_pow2(n: int) -> bool {
    exists|k: nat| n == pow2(k)
}

/// `side` is the smallest power of two that is at least `requested` (and at
/// least 1).
pub open spec fn is_face_side_for(requested: int, side: int) -> bool {
    &&& is_pow2(side)
    &&& side >= requested
    &&& (side == 1 || side / 2 < requested)
}

/// Largest face size request whose power-of-two rounding fits in 32 bits.
pub const MAX_FACE_REQUEST: u32 = 0x8000_0000;

/// Side length of each face for a requested `face_size`: the next power of
/// two, and 1 for a request of 0.
pub fn face_side_length(face_size: u32) -> (r: u32)
    requires
        face_size <= MAX_FACE_REQUEST,
    ensures
        is_face_side_for(face_size as int, r as int),
{
    let mut side: u32 = 1;
    let ghost mut k: nat = 0;
    while side < face_size
        invariant
            face_size <= MAX_FACE_REQUEST,
            side == pow2(k),
            1 <= side,
            side == 1 || side / 2 < face_size,
        decreases 2 * face_size - side,
    {
        side = side * 2;
        proof {
            k = k + 1;
        }
    }
    side
}


/// Largest face side whose sample coordinates fit the integer arithmetic
/// below: the squared scale `(2 * side)^2` stays within 32 bits.
pub const MAX_FACE_SIDE: u32 = 32768;

/// Pixel-centre coordinates `(u, v)` of pixel `(x, y)` on face `face`, as
/// numerators over `2 * side`. `u` runs with `x` from the left edge, `v` runs
/// up from the bottom edge while `y` runs down from the top. Face 2 has both
/// flipped.
pub open spec fn face_uv(face: int, x: int, y: int, side: int) -> (int, int) {
    let u = 2 * x + 1;
    let v = 2 * side - (2 * y + 1);
    if face == 2 {
        (2 * side - u, 2 * side - v)
    } else {
        (u, v)
    }
}

/// One coordinate of the bilinear blend of a quad's corners `c1..c4` at
/// `(u / d, v / d)`, as a numerator over `d * d`: first along the edges
/// `c1 -> c4` and `c2 -> c3` by `v`, then between those by `u`.
pub open spec fn bilerp(c1: int, c2: int, c3: int, c4: int, u: int, v: int, d: int) -> int {
    (c1 * (d - v) + c4 * v) * (d - u) + (c2 * (d - v) + c3 * v) * u
}

/// The point of the cube surface that pixel `(x, y)` of face `face` samples,
/// with coordinates as numerators over `(2 * side)^2`.
pub open spec fn sample_point(face: int, x: int, y: int, side: int) -> Point3 {
    let (u, v) = face_uv(face, x, y, side);
    let d = 2 * side;
    let p1 = corner_table(4 * face);
    let p2 = corner_table(4 * face + 1);
    let p3 = corner_table(4 * face + 2);
    let p4 = corner_table(4 * face + 3);
    Point3 {
        x: bilerp(p1.x as int, p2.x as int, p3.x as int, p4.x as int, u, v, d) as i64,
        y: bilerp(p1.y as int, p2.y as int, p3.y as int, p4.y as int, u, v, d) as i64,
        z: bilerp(p1.z as int, p2.z as int, p3.z as int, p4.z as int, u, v, d) as i64,
    }
}

/// The coordinate of `p` along the outward direction of face `face`.
pub open spec fn outward_coord(face: int, p: Point3) -> int {
    if face == 0 { p.x as int }
    else if face == 1 { -p.x }
    else if face == 2 { p.y as int }
    else if face == 3 { -p.y }
    else if face == 4 { p.z as int }
    else { -p.z }
}

/// `p`, scaled by `1 / scale`, lies on face `face` of the cube: its
/// coordinate along the face's outward direction is 1 and the others are
/// within `[-1, 1]`.
pub open spec fn on_face(face: int, p: Point3, scale: int) -> bool {
    &&& outward_coord(face, p) == scale
    &&& -scale <= p.x <= scale
    &&& -scale <= p.y <= scale
    &&& -scale <= p.z <= scale
}

proof fn lemma_bilerp_bounds(c1: int, c2: int, c3: int, c4: int, u: int, v: int, d: int)
    requires
        -1 <= c1 <= 1,
        -1 <= c2 <= 1,
        -1 <= c3 <= 1,
        -1 <= c4 <= 1,
        0 <= u <= d,
        0 <= v <= d,
    ensures
        -(d * d) <= bilerp(c1, c2, c3, c4, u, v, d) <= d * d,
        c1 == c2 == c3 == c4 ==> bilerp(c1, c2, c3, c4, u, v, d) == c1 * (d * d),
{
    let l = c1 * (d - v) + c4 * v;
    let r = c2 * (d - v) + c3 * v;
    assert(-d <= l <= d) by (nonlinear_arith)
        requires
            l == c1 * (d - v) + c4 * v,
            -1 <= c1 <= 1,
            -1 <= c4 <= 1,
            0 <= v <= d,
    ;
    assert(-d <= r <= d) by (nonlinear_arith)
        requires
            r == c2 * (d - v) + c3 * v,
            -1 <= c2 <= 1,
            -1 <= c3 <= 1,
            0 <= v <= d,
    ;
    assert(-(d * d) <= l * (d - u) + r * u <= d * d) by (nonlinear_arith)
        requires
            -d <= l <= d,
            -d <= r <= d,
            0 <= u <= d,
    ;
    assert(c1 == c2 == c3 == c4 ==> l * (d - u) + r * u == c1 * (d * d)) by (nonlinear_arith)
        requires
            l == c1 * (d - v) + c4 * v,
            r == c2 * (d - v) + c3 * v,
    ;
}

/// One coordinate of a sample point, from the corners' coordinates.
fn bilerp_coord(c1: i64, c2: i64, c3: i64, c4: i64, u: i64, v: i64, d: i64) -> (r: i64)
    requires
        -1 <= c1 <= 1,
        -1 <= c2 <= 1,
        -1 <= c3 <= 1,
        -1 <= c4 <= 1,
        0 <= u <= d,
        0 <= v <= d,
        d <= 2 * MAX_FACE_SIDE,
    ensures
        r == bilerp(c1 as int, c2 as int, c3 as int, c4 as int, u as int, v as int, d as int),
{
    proof {
        lemma_bilerp_bounds(c1 as int, c2 as int, c3 as int, c4 as int, u as int, v as int, d as int);
        assert(-d <= c1 * (d - v) + c4 * v <= d) by (nonlinear_arith)
            requires
                -1 <= c1 <= 1,
                -1 <= c4 <= 1,
                0 <= v <= d,
        ;
        assert(-d <= c2 * (d - v) + c3 * v <= d) by (nonlinear_arith)
            requires
                -1 <= c2 <= 1,
                -1 <= c3 <= 1,
                0 <= v <= d,
        ;
        assert(d * d <= 4 * MAX_FACE_SIDE * MAX_FACE_SIDE) by (nonlinear_arith)
            requires
                0 <= d <= 2 * MAX_FACE_SIDE,
        ;
        assert(-d <= c1 * (d - v) <= d && -d <= c2 * (d - v) <= d) by (nonlinear_arith)
            requires
                -1 <= c1 <= 1,
                -1 <= c2 <= 1,
                0 <= v <= d,
        ;
        assert(-d <= c3 * v <= d && -d <= c4 * v <= d) by (nonlinear_arith)
            requires
                -1 <= c3 <= 1,
                -1 <= c4 <= 1,
                0 <= v <= d,
        ;
    }
    let l = c1 * (d - v) + c4 * v;
    let r = c2 * (d - v) + c3 * v;
    proof {
        assert(-(d * d) <= l * (d - u) <= d * d) by (nonlinear_arith)
            requires
                -d <= l <= d,
                0 <= u <= d,
        ;
        assert(-(d * d) <= r * u <= d * d) by (nonlinear_arith)
            requires
                -d <= r <= d,
                0 <= u <= d,
        ;
    }
    l * (d - u) + r * u
}

/// The point of the cube surface that pixel `(x, y)` of face `face` samples,
/// as numerators over `(2 * side)^2`. It lies on that face.
pub fn surface_point(face: u32, x: u32, y: u32, side: u32) -> (r: Point3)
    requires
        face < FACE_COUNT,
        x < side,
        y < side,
        side <= MAX_FACE_SIDE,
    ensures
        r == sample_point(face as int, x as int, y as int, side as int),
        on_face(face as int, r, 4 * side * side),
{
    let d: i64 = 2 * side as i64;
    let mut u: i64 = 2 * x as i64 + 1;
    let mut v: i64 = d - (2 * y as i64 + 1);
    if face == 2 {
        u = d - u;
        v = d - v;
    }
    let (p1, p2, p3, p4) = face_corners(face);
    proof {
        assert(0 <= face < 6);
        assert(forall|i: int| 0 <= i < 24 ==> -1 <= #[trigger] corner_table(i).x <= 1
            && -1 <= corner_table(i).y <= 1 && -1 <= corner_table(i).z <= 1);
    }
    let r = Point3 {
        x: bilerp_coord(p1.x, p2.x, p3.x, p4.x, u, v, d),
        y: bilerp_coord(p1.y, p2.y, p3.y, p4.y, u, v, d),
        z: bilerp_coord(p1.z, p2.z, p3.z, p4.z, u, v, d),
    };
    proof {
        let di = d as int;
        assert(di * di == 4 * side * side) by (nonlinear_arith)
            requires
                di == 2 * side,
        ;
        lemma_bilerp_bounds(p1.x as int, p2.x as int, p3.x as int, p4.x as int, u as int, v as int, di);
        lemma_bilerp_bounds(p1.y as int, p2.y as int, p3.y as int, p4.y as int, u as int, v as int, di);
        lemma_bilerp_bounds(p1.z as int, p2.z as int, p3.z as int, p4.z as int, u as int, v as int, di);
        if face == 0 {
            assert(p1.x == 1 && p2.x == 1 && p3.x == 1 && p4.x == 1);
            assert(r.x == 1 * (di * di));
        } else if face == 1 {
            assert(p1.x == -1 && p2.x == -1 && p3.x == -1 && p4.x == -1);
            assert(r.x == -1 * (di * di));
        } else if face == 2 {
            assert(p1.y == 1 && p2.y == 1 && p3.y == 1 && p4.y == 1);
            assert(r.y == 1 * (di * di));
        } else if face == 3 {
            assert(p1.y == -1 && p2.y == -1 && p3.y == -1 && p4.y == -1);
            assert(r.y == -1 * (di * di));
        } else if face == 4 {
            assert(p1.z == 1 && p2.z == 1 && p3.z == 1 && p4.z == 1);
            assert(r.z == 1 * (di * di));
        } else {
            assert(p1.z == -1 && p2.z == -1 && p3.z == -1 && p4.z == -1);
            assert(r.z == -1 * (di * di));
        }
        assert(on_face(face as int, r, di * di));
    }
    r
}

/// Position of pixel `(x, y)` of face `face` in the buffer: faces one after
/// another, each row by row from the top, each row from the left.
pub open spec fn pixel_index(face: int, x: int, y: int, side: int) -> int {
    face * (side * side) + y * side + x
}

/// The sample of buffer position `k`, `pixel_index` read backwards.
pub open spec fn sample_at(k: int, side: int) -> Point3 {
    let area = side * side;
    sample_point(k / area, (k % area) % side, (k % area) / side, side)
}

/// `pixel_index` numbers the pixels of the six faces one to one with the
/// positions `0 .. 6 * side * side`, and `sample_at` reads a position back
/// as the pixel it numbers.
pub proof fn lemma_pixel_index(face: int, x: int, y: int, side: int)
    requires
        0 <= face < 6,
        0 <= x < side,
        0 <= y < side,
    ensures
        0 <= pixel_index(face, x, y, side) < 6 * side * side,
        sample_at(pixel_index(face, x, y, side), side) == sample_point(face, x, y, side),
{
    let area = side * side;
    let rem = y * side + x;
    assert(0 <= rem < area) by (nonlinear_arith)
        requires
            rem == y * side + x,
            area == side * side,
            0 <= x < side,
            0 <= y < side,
    ;
    assert(0 <= face * area + rem < 6 * side * side) by (nonlinear_arith)
        requires
            0 <= rem < area,
            area == side * side,
            0 <= face < 6,
    ;
    lemma_fundamental_div_mod_converse(face * area + rem, area, face, rem);
    lemma_fundamental_div_mod_converse(rem, side, y, x);
}

/// Samples for every pixel of a cube map with faces `side` pixels wide,
/// in buffer order (see `pixel_index`): each is the point of the cube surface
/// that the pixel's centre maps to, over the scale `(2 * side)^2`.
pub fn cubemap_samples(side: u32) -> (r: Vec<Point3>)
    requires
        1 <= side <= MAX_FACE_SIDE,
        6 * side * side <= usize::MAX,
    ensures
        r@.len() == 6 * side * side,
        forall|k: int| 0 <= k < r@.len() ==> #[trigger] r@[k] == sample_at(k, side as int),
        forall|face: int, x: int, y: int|
            0 <= face < 6 && 0 <= x < side && 0 <= y < side
                ==> r@[pixel_index(face, x, y, side as int)] == #[trigger] sample_point(
                face,
                x,
                y,
                side as int,
            ),
{
    proof {
        assert(side * side <= MAX_FACE_SIDE * MAX_FACE_SIDE) by (nonlinear_arith)
            requires
                side <= MAX_FACE_SIDE,
        ;
    }
    let area: u64 = side as u64 * side as u64;
    let total: u64 = 6 * area;
    let mut r: Vec<Point3> = Vec::new();
    let mut k: u64 = 0;
    while k < total
        invariant
            1 <= side <= MAX_FACE_SIDE,
            area == side * side,
            total == 6 * area,
            k <= total,
            r@.len() == k,
            forall|j: int| 0 <= j < k ==> #[trigger] r@[j] == sample_at(j, side as int),
        decreases total - k,
    {
        let face = k / area;
        let rem = k % area;
        let y = rem / side as u64;
        let x = rem % side as u64;
        proof {
            lemma_multiply_divide_lt(k as int, area as int, 6);
            lemma_mod_pos_bound(k as int, area as int);
            lemma_mod_pos_bound(rem as int, side as int);
            lemma_multiply_divide_lt(rem as int, side as int, side as int);
        }
        let p = surface_point(face as u32, x as u32, y as u32, side);
        r.push(p);
        k = k + 1;
    }
    proof {
        assert(6 * side * side == 6 * (side * side)) by (nonlinear_arith);
        assert forall|face: int, x: int, y: int|
            0 <= face < 6 && 0 <= x < side && 0 <= y < side
                implies r@[pixel_index(face, x, y, side as int)] == #[trigger] sample_point(
                face,
                x,
                y,
                side as int,
            ) by {
            lemma_pixel_index(face, x, y, side as int);
            let k = pixel_index(face, x, y, side as int);
            assert(r@[k] == sample_at(k, side as int));
        }
    }
    r
}


/// An 8-bit RGBA colour.
#[derive(Clone, Copy, Debug, PartialEq, Eq, Structural)]
pub struct Rgba8 {
    pub r: u8,
    pub g: u8,
    pub b: u8,
    pub a: u8,
}

/// The bytes of `pixels`, four per pixel in the order red, green, blue, alpha.
pub fn pack_rgba(pixels: &Vec<Rgba8>) -> (r: Vec<u8>)
    requires
        4 * pixels@.len() <= usize::MAX,
    ensures
        r@.len() == 4 * pixels@.len(),
        forall|k: int|
            0 <= k < pixels@.len() ==> {
                &&& r@[4 * k] == (#[trigger] pixels@[k]).r
                &&& r@[4 * k + 1] == pixels@[k].g
                &&& r@[4 * k + 2] == pixels@[k].b
                &&& r@[4 * k + 3] == pixels@[k].a
            },
{
    let mut r: Vec<u8> = Vec::new();
    let mut i: usize = 0;
    while i < pixels.len()
        invariant
            4 * pixels@.len() <= usize::MAX,
            i <= pixels@.len(),
            r@.len() == 4 * i,
            forall|k: int|
                0 <= k < i ==> {
                    &&& r@[4 * k] == (#[trigger] pixels@[k]).r
                    &&& r@[4 * k + 1] == pixels@[k].g
                    &&& r@[4 * k + 2] == pixels@[k].b
                    &&& r@[4 * k + 3] == pixels@[k].a
                },
        decreases pixels@.len() - i,
    {
        let p = pixels[i];
        r.push(p.r);
        r.push(p.g);
        r.push(p.b);
        r.push(p.a);
        i = i + 1;
    }
    r
}

} // verus!
