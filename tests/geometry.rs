use skytex::cube::{face_corners, face_plane, math_cubemap_corner, plane_from_points, Plane, Point3};

fn p(x: i64, y: i64, z: i64) -> Point3 {
    Point3 { x, y, z }
}

#[test]
fn corners_match_face_table() {
    let expected = [
        p(1, -1, 1), p(1, -1, -1), p(1, 1, -1), p(1, 1, 1),
        p(-1, -1, -1), p(-1, -1, 1), p(-1, 1, 1), p(-1, 1, -1),
        p(1, 1, -1), p(-1, 1, -1), p(-1, 1, 1), p(1, 1, 1),
        p(-1, -1, -1), p(1, -1, -1), p(1, -1, 1), p(-1, -1, 1),
        p(-1, -1, 1), p(1, -1, 1), p(1, 1, 1), p(-1, 1, 1),
        p(1, -1, -1), p(-1, -1, -1), p(-1, 1, -1), p(1, 1, -1),
    ];
    for i in 0..24 {
        assert_eq!(math_cubemap_corner(i), expected[i as usize], "corner {}", i);
    }
}

#[test]
fn corners_dedup_to_eight_cube_vertices() {
    let mut seen: Vec<Point3> = Vec::new();
    for i in 0..24 {
        let c = math_cubemap_corner(i);
        assert!(c.x.abs() == 1 && c.y.abs() == 1 && c.z.abs() == 1);
        if !seen.contains(&c) {
            seen.push(c);
        }
    }
    assert_eq!(seen.len(), 8);
}

#[test]
fn each_face_lies_on_its_axis() {
    // +X, -X, +Y, -Y, +Z, -Z
    let axis = [(0, 1), (0, -1), (1, 1), (1, -1), (2, 1), (2, -1)];
    for face in 0..6u32 {
        let (a, b, c, d) = face_corners(face);
        for q in [a, b, c, d] {
            let coords = [q.x, q.y, q.z];
            assert_eq!(coords[axis[face as usize].0], axis[face as usize].1);
        }
    }
}

#[test]
fn face_planes_are_outward_and_unit_offset() {
    let normals = [p(4, 0, 0), p(-4, 0, 0), p(0, 4, 0), p(0, -4, 0), p(0, 0, 4), p(0, 0, -4)];
    for face in 0..6u32 {
        let plane = face_plane(face);
        assert_eq!(plane, Plane { normal: normals[face as usize], offset: -4 });
    }
}

#[test]
fn plane_through_three_points() {
    let a = p(1, 2, 3);
    let b = p(4, 0, 3);
    let c = p(1, 5, -2);
    let plane = plane_from_points(a, b, c);
    // (3, -2, 0) x (0, 3, -5)
    assert_eq!(plane.normal, p(10, 15, 9));
    assert_eq!(plane.offset, -(10 + 30 + 27));
    for q in [a, b, c] {
        let n = plane.normal;
        assert_eq!(n.x * q.x + n.y * q.y + n.z * q.z + plane.offset, 0);
    }
}

#[test]
fn collinear_points_give_zero_normal() {
    let plane = plane_from_points(p(0, 0, 0), p(1, 1, 1), p(2, 2, 2));
    assert_eq!(plane, Plane { normal: p(0, 0, 0), offset: 0 });
}
