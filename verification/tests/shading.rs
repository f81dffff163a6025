use inception_diorama::material::{default_materials, shade, Kind, Material};
use inception_diorama::math::Vec3;
use inception_diorama::ray::Ray;
use inception_diorama::scene::Scene;

fn sky_only() -> Scene {
    Scene { cubes: vec![], mats: vec![] }
}

fn in_unit(c: Vec3) {
    assert!(0 <= c.x && c.x <= 1_000_000);
    assert!(0 <= c.y && c.y <= 1_000_000);
    assert!(0 <= c.z && c.z <= 1_000_000);
}

#[test]
fn emissive_shading_ignores_geometry() {
    let env = sky_only();
    let mat = Material {
        kind: Kind::Emissive { intensity: 4_000_000 },
        albedo: Vec3::new(900_000, 900_000, 1_000_000),
        specular: 0,
        transparency: 0,
        reflectivity: 0,
    };
    let expected = Vec3::new(3_600_000, 3_600_000, 4_000_000); // albedo * 4
    let r1 = Ray { o: Vec3::new(0, 0, 5_000_000), d: Vec3::new(0, 0, -1_000_000) };
    let r2 = Ray { o: Vec3::new(1_000_000, 2_000_000, 0), d: Vec3::new(600_000, -800_000, 0) };
    let c1 = shade(Vec3::new(0, 0, 1_000_000), Vec3::new(0, 0, 1_000_000), &r1, &mat, &env, 2);
    let c2 = shade(Vec3::new(5_000_000, 0, 0), Vec3::new(0, 1_000_000, 0), &r2, &mat, &env, 0);
    assert_eq!(c1, expected);
    assert_eq!(c2, expected);
}

#[test]
fn diffuse_shading_stays_in_the_unit_cube() {
    let env = sky_only();
    let mats = default_materials();
    let ray = Ray { o: Vec3::new(0, 0, 5_000_000), d: Vec3::new(0, 0, -1_000_000) };
    let c = shade(Vec3::new(0, 0, 1_000_000), Vec3::new(0, 0, 1_000_000), &ray, &mats[0], &env, 2);
    in_unit(c);
    assert!(c != Vec3::new(0, 0, 0)); // facing the view, it is lit
}

#[test]
fn plastic_shading_stays_in_the_unit_cube() {
    let env = sky_only();
    let mats = default_materials();
    let ray = Ray { o: Vec3::new(0, 0, 5_000_000), d: Vec3::new(0, 0, -1_000_000) };
    let c = shade(Vec3::new(0, 0, 1_000_000), Vec3::new(0, 0, 1_000_000), &ray, &mats[3], &env, 2);
    in_unit(c);
}

#[test]
fn metal_with_no_bounces_left_is_black() {
    let env = sky_only();
    let mats = default_materials();
    let ray = Ray { o: Vec3::new(0, 0, 5_000_000), d: Vec3::new(0, 0, -1_000_000) };
    let c = shade(Vec3::new(0, 0, 1_000_000), Vec3::new(0, 0, 1_000_000), &ray, &mats[1], &env, 0);
    assert_eq!(c, Vec3::new(0, 0, 0));
}

#[test]
fn metal_with_budget_reflects_the_environment() {
    let env = sky_only();
    let mats = default_materials();
    let ray = Ray { o: Vec3::new(0, 0, 5_000_000), d: Vec3::new(0, 0, -1_000_000) };
    let c = shade(Vec3::new(0, 0, 1_000_000), Vec3::new(0, 0, 1_000_000), &ray, &mats[1], &env, 2);
    in_unit(c);
    assert!(c != Vec3::new(0, 0, 0));
}

#[test]
fn dielectric_with_no_bounces_left_is_black() {
    let env = sky_only();
    let mats = default_materials();
    let ray = Ray { o: Vec3::new(0, 0, 5_000_000), d: Vec3::new(0, 0, -1_000_000) };
    let c = shade(Vec3::new(0, 0, 1_000_000), Vec3::new(0, 0, 1_000_000), &ray, &mats[2], &env, 0);
    assert_eq!(c, Vec3::new(0, 0, 0));
}

#[test]
fn dielectric_with_budget_stays_in_the_unit_cube() {
    let env = sky_only();
    let mats = default_materials();
    let ray = Ray { o: Vec3::new(200_000, 0, 5_000_000), d: Vec3::new(100_000, 0, -1_000_000) };
    let c = shade(Vec3::new(0, 0, 1_000_000), Vec3::new(0, 0, 1_000_000), &ray, &mats[2], &env, 2);
    in_unit(c);
}

#[test]
fn stock_materials_are_the_documented_five() {
    let mats = default_materials();
    assert_eq!(mats.len(), 5);
    assert!(matches!(mats[0].kind, Kind::Diffuse));
    assert_eq!(mats[0].albedo, Vec3::new(800_000, 800_000, 850_000));
    assert!(matches!(mats[1].kind, Kind::Metal { rough: 200_000 }));
    assert_eq!(mats[1].reflectivity, 900_000);
    match mats[2].kind {
        Kind::Dielectric { ior, absorption } => {
            assert_eq!(ior, 1_500_000);
            assert_eq!(absorption, Vec3::new(100_000, 30_000, 10_000));
        },
        _ => panic!("expected glass"),
    }
    assert!(matches!(mats[3].kind, Kind::Plastic { rough: 400_000 }));
    assert!(matches!(mats[4].kind, Kind::Emissive { intensity: 4_000_000 }));
}
