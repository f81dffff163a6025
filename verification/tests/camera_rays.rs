use inception_diorama::camera::Camera;
use inception_diorama::math::Vec3;
use inception_diorama::trig::{fx_cos_deg, fx_sin_deg, fx_tan_deg};

#[test]
fn sine_anchors_are_exact() {
    assert_eq!(fx_sin_deg(0), 0);
    assert_eq!(fx_sin_deg(30_000_000), 500_000);
    assert_eq!(fx_sin_deg(90_000_000), 1_000_000);
    assert_eq!(fx_sin_deg(150_000_000), 500_000);
    assert_eq!(fx_sin_deg(180_000_000), 0);
    assert_eq!(fx_sin_deg(270_000_000), -1_000_000);
    assert_eq!(fx_sin_deg(-90_000_000), -1_000_000);
    assert_eq!(fx_sin_deg(45_000_000), 705_882); // Bhaskara's 0.7058...
}

#[test]
fn cosine_is_the_shifted_sine() {
    assert_eq!(fx_cos_deg(0), 1_000_000);
    assert_eq!(fx_cos_deg(60_000_000), 500_000);
    assert_eq!(fx_cos_deg(90_000_000), 0);
    assert_eq!(fx_cos_deg(180_000_000), -1_000_000);
    assert_eq!(fx_cos_deg(360_000_000), 1_000_000);
    assert_eq!(fx_cos_deg(-360_000_000), 1_000_000);
}

#[test]
fn tangent_of_forty_five_degrees_is_one() {
    assert_eq!(fx_tan_deg(45_000_000), 1_000_000);
    assert_eq!(fx_tan_deg(0), 0);
}

#[test]
fn identity_orientation_looks_down_negative_z() {
    let eye = Vec3::new(0, 0, 12_000_000);
    let cam = Camera::from_euler(eye, 0, 0, 0, 90_000_000, 1_000_000);
    assert_eq!(cam.origin, eye);
    assert_eq!(cam.u, Vec3::new(1_000_000, 0, 0));
    assert_eq!(cam.v, Vec3::new(0, 1_000_000, 0));
    assert_eq!(cam.w, Vec3::new(0, 0, 1_000_000));
    assert_eq!(cam.half_h, 1_000_000); // tan 45 degrees
    assert_eq!(cam.half_w, 1_000_000);
}

#[test]
fn yaw_of_ninety_degrees_turns_the_basis() {
    let cam = Camera::from_euler(Vec3::new(0, 0, 0), 90_000_000, 0, 0, 90_000_000, 1_000_000);
    assert_eq!(cam.u, Vec3::new(0, 0, -1_000_000));
    assert_eq!(cam.v, Vec3::new(0, 1_000_000, 0));
    assert_eq!(cam.w, Vec3::new(1_000_000, 0, 0));
}

#[test]
fn center_ray_points_along_the_view() {
    let eye = Vec3::new(0, 0, 12_000_000);
    let cam = Camera::from_euler(eye, 0, 0, 0, 90_000_000, 1_000_000);
    let r = cam.ray_for(0, 0);
    assert_eq!(r.o, eye);
    assert_eq!(r.d, Vec3::new(0, 0, -1_000_000));
}

#[test]
fn edge_ray_tilts_by_the_half_extent() {
    let cam = Camera::from_euler(Vec3::new(0, 0, 0), 0, 0, 0, 90_000_000, 1_000_000);
    let r = cam.ray_for(1_000_000, 0);
    assert_eq!(r.d, Vec3::new(707_107, 0, -707_107)); // normalized (1, 0, -1)
}
