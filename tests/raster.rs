use skytex::cube::Point3;
use skytex::harmonics::{coefficient_window_weight, sh_band};
use skytex::material::{material_flags, AlphaKind, MaterialFeatures};
use skytex::raster::{cubemap_samples, face_side_length, pack_rgba, surface_point, Rgba8};

fn p(x: i64, y: i64, z: i64) -> Point3 {
    Point3 { x, y, z }
}

#[test]
fn face_size_five_rounds_up_to_eight() {
    assert_eq!(face_side_length(5), 8);
}

#[test]
fn face_size_rounding_edges() {
    assert_eq!(face_side_length(0), 1);
    assert_eq!(face_side_length(1), 1);
    assert_eq!(face_side_length(2), 2);
    assert_eq!(face_side_length(3), 4);
    assert_eq!(face_side_length(16), 16);
    assert_eq!(face_side_length(17), 32);
    assert_eq!(face_side_length(0x8000_0000), 0x8000_0000);
    assert_eq!(face_side_length(0x4000_0001), 0x8000_0000);
}

#[test]
fn face_size_one_gives_six_pixels_and_24_bytes() {
    let side = face_side_length(1);
    let samples = cubemap_samples(side);
    assert_eq!(samples.len(), 6);
    let pixels: Vec<Rgba8> = samples.iter().map(|_| Rgba8 { r: 1, g: 2, b: 3, a: 255 }).collect();
    assert_eq!(pack_rgba(&pixels).len(), 24);
}

#[test]
fn single_pixel_faces_sample_face_centres() {
    let samples = cubemap_samples(1);
    assert_eq!(
        samples,
        vec![p(4, 0, 0), p(-4, 0, 0), p(0, 4, 0), p(0, -4, 0), p(0, 0, 4), p(0, 0, -4)]
    );
}

#[test]
fn two_pixel_faces_top_left_and_flip() {
    let first: Vec<Point3> = (0..6).map(|f| surface_point(f, 0, 0, 2)).collect();
    assert_eq!(
        first,
        vec![p(16, 8, 8), p(-16, 8, -8), p(-8, 16, -8), p(-8, -16, 8), p(-8, 8, 16), p(8, 8, -16)]
    );
    let second: Vec<Point3> = (0..6).map(|f| surface_point(f, 1, 0, 2)).collect();
    assert_eq!(
        second,
        vec![p(16, 8, -8), p(-16, 8, 8), p(8, 16, -8), p(8, -16, 8), p(8, 8, 16), p(-8, 8, -16)]
    );
    assert_eq!(surface_point(2, 1, 1, 2), p(8, 16, 8));
    assert_eq!(surface_point(3, 0, 1, 2), p(-8, -16, -8));
}

#[test]
fn samples_are_face_major_then_row_major() {
    let side = 4u32;
    let samples = cubemap_samples(side);
    assert_eq!(samples.len(), 96);
    for face in 0..6u32 {
        for y in 0..side {
            for x in 0..side {
                let k = (face * side * side + y * side + x) as usize;
                assert_eq!(samples[k], surface_point(face, x, y, side));
            }
        }
    }
}

#[test]
fn samples_stay_on_their_face() {
    let side = 8u32;
    let scale = (2 * side * 2 * side) as i64;
    for face in 0..6u32 {
        for y in 0..side {
            for x in 0..side {
                let q = surface_point(face, x, y, side);
                let c = [q.x, -q.x, q.y, -q.y, q.z, -q.z];
                assert_eq!(c[face as usize], scale);
                assert!(q.x.abs() <= scale && q.y.abs() <= scale && q.z.abs() <= scale);
            }
        }
    }
}

#[test]
fn pack_rgba_keeps_channel_order() {
    let pixels = vec![Rgba8 { r: 1, g: 2, b: 3, a: 4 }, Rgba8 { r: 250, g: 0, b: 128, a: 255 }];
    assert_eq!(pack_rgba(&pixels), vec![1, 2, 3, 4, 250, 0, 128, 255]);
    assert!(pack_rgba(&Vec::new()).is_empty());
}

#[test]
fn bands_of_the_nine_coefficients() {
    let bands: Vec<u32> = (0..9).map(sh_band).collect();
    assert_eq!(bands, vec![0, 1, 1, 1, 2, 2, 2, 2, 2]);
}

#[test]
fn window_weights_leave_band_zero_alone() {
    let weights: Vec<u32> = (0..9).map(coefficient_window_weight).collect();
    assert_eq!(weights, vec![0, 4, 4, 4, 36, 36, 36, 36, 36]);
}

#[test]
fn material_flag_words() {
    let none = MaterialFeatures {
        diffuse_texture: false,
        emission_texture: false,
        metal_texture: false,
        occlusion_texture: false,
        double_sided: false,
        alpha: AlphaKind::Other,
    };
    assert_eq!(material_flags(&none), 0);
    let opaque = MaterialFeatures { alpha: AlphaKind::Opaque, ..none };
    assert_eq!(material_flags(&opaque), 2);
    let all = MaterialFeatures {
        diffuse_texture: true,
        emission_texture: true,
        metal_texture: true,
        occlusion_texture: true,
        double_sided: true,
        alpha: AlphaKind::Mask,
    };
    assert_eq!(material_flags(&all), 0b111_1101);
    let some = MaterialFeatures { emission_texture: true, double_sided: true, ..none };
    assert_eq!(material_flags(&some), 16 | 8);
}
