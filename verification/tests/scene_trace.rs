use inception_diorama::aabb::Aabb;
use inception_diorama::material::{Kind, Material};
use inception_diorama::math::Vec3;
use inception_diorama::ray::Ray;
use inception_diorama::scene::Scene;

fn in_unit(c: Vec3) {
    assert!(0 <= c.x && c.x <= 1_000_000);
    assert!(0 <= c.y && c.y <= 1_000_000);
    assert!(0 <= c.z && c.z <= 1_000_000);
}

fn mirror_material(reflectivity: i64) -> Material {
    Material {
        kind: Kind::Metal { rough: 200_000 },
        albedo: Vec3::new(900_000, 900_000, 950_000),
        specular: 1_000_000,
        transparency: 0,
        reflectivity,
    }
}

fn one_box_scene(reflectivity: i64) -> Scene {
    Scene {
        cubes: vec![
            Aabb {
                min: Vec3::new(-1_000_000, -1_000_000, -1_000_000),
                max: Vec3::new(1_000_000, 1_000_000, 1_000_000),
                mat_id: 0,
            },
        ],
        mats: vec![mirror_material(reflectivity)],
    }
}

#[test]
fn empty_scene_shows_exactly_the_sky() {
    let scene = Scene { cubes: vec![], mats: vec![] };
    for d in [
        Vec3::new(0, 0, -1_000_000),
        Vec3::new(0, 1_000_000, 0),
        Vec3::new(0, -1_000_000, 0),
        Vec3::new(600_000, 800_000, 0),
    ] {
        let ray = Ray { o: Vec3::new(0, 0, 0), d };
        assert_eq!(scene.trace(&ray, 2), scene.sky(&d));
    }
}

#[test]
fn sky_gradient_values() {
    let scene = Scene { cubes: vec![], mats: vec![] };
    // level: a blend partway between horizon and zenith
    assert_eq!(scene.sky(&Vec3::new(0, 0, -1_000_000)), Vec3::new(521_618, 681_078, 949_999));
    // straight up: the zenith color
    assert_eq!(scene.sky(&Vec3::new(0, 1_000_000, 0)), Vec3::new(400_000, 600_000, 950_000));
    // straight down: the horizon color
    assert_eq!(scene.sky(&Vec3::new(0, -1_000_000, 0)), Vec3::new(700_000, 800_000, 950_000));
}

#[test]
fn depth_zero_is_black() {
    let scene = one_box_scene(900_000);
    let ray = Ray { o: Vec3::new(0, 0, 5_000_000), d: Vec3::new(0, 0, -1_000_000) };
    assert_eq!(scene.trace(&ray, 0), Vec3::new(0, 0, 0));
    assert_eq!(scene.trace(&ray, -3), Vec3::new(0, 0, 0));
}

#[test]
fn one_bounce_leaves_the_reflective_branch_dark() {
    // the same geometry with a mirror and with a dull surface: with one
    // bounce left the mirror contributes nothing beyond the dull answer
    let mirror = one_box_scene(900_000);
    let dull = one_box_scene(0);
    let ray = Ray { o: Vec3::new(0, 0, 5_000_000), d: Vec3::new(0, 0, -1_000_000) };
    let with_one = mirror.trace(&ray, 1);
    assert_eq!(with_one, dull.trace(&ray, 2));
    assert_eq!(with_one, Vec3::new(126_000, 144_000, 190_000));
    // with two bounces the reflection shows
    assert_ne!(mirror.trace(&ray, 2), with_one);
}

#[test]
fn mirror_with_two_bounces_gathers_the_sky() {
    let mirror = one_box_scene(900_000);
    let ray = Ray { o: Vec3::new(0, 0, 5_000_000), d: Vec3::new(0, 0, -1_000_000) };
    assert_eq!(mirror.trace(&ray, 2), Vec3::new(525_037, 695_673, 1_000_000));
}

#[test]
fn traced_colors_stay_in_the_unit_cube() {
    let mirror = one_box_scene(900_000);
    for (o, d, depth) in [
        (Vec3::new(0, 0, 5_000_000), Vec3::new(0, 0, -1_000_000), 5),
        (Vec3::new(0, 5_000_000, 0), Vec3::new(0, -1_000_000, 0), 2),
        (Vec3::new(-4_000_000, 2_000_000, 4_000_000), Vec3::new(600_000, -400_000, -800_000), 3),
        (Vec3::new(0, 0, 0), Vec3::new(0, 1_000_000, 0), 2),
    ] {
        let ray = Ray { o, d };
        in_unit(mirror.trace(&ray, depth));
    }
}

#[test]
fn missing_every_box_still_shows_the_sky() {
    let scene = one_box_scene(900_000);
    let d = Vec3::new(0, 1_000_000, 0);
    let ray = Ray { o: Vec3::new(5_000_000, 0, 0), d };
    assert_eq!(scene.trace(&ray, 2), scene.sky(&d));
}
