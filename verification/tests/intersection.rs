use inception_diorama::aabb::Aabb;
use inception_diorama::fixed::FX_MAX;
use inception_diorama::math::Vec3;
use inception_diorama::ray::Ray;

fn unit_box() -> Aabb {
    Aabb {
        min: Vec3::new(-1_000_000, -1_000_000, -1_000_000),
        max: Vec3::new(1_000_000, 1_000_000, 1_000_000),
        mat_id: 7,
    }
}

#[test]
fn frontal_ray_hits_the_near_face() {
    let b = unit_box();
    let ray = Ray { o: Vec3::new(0, 0, 5_000_000), d: Vec3::new(0, 0, -1_000_000) };
    let h = b.hit(&ray, 1_000, FX_MAX).unwrap();
    assert_eq!(h.t, 4_000_000); // t = 4
    assert_eq!(h.p, Vec3::new(0, 0, 1_000_000)); // point (0, 0, 1)
    assert_eq!(h.n, Vec3::new(0, 0, 1_000_000)); // outward +z normal
    assert_eq!(h.mat_id, 7);
}

#[test]
fn ray_pointing_away_misses() {
    let b = unit_box();
    let ray = Ray { o: Vec3::new(0, 0, 5_000_000), d: Vec3::new(0, 0, 1_000_000) };
    assert!(b.hit(&ray, 1_000, FX_MAX).is_none());
}

#[test]
fn ray_beside_the_box_misses() {
    let b = unit_box();
    let ray = Ray { o: Vec3::new(3_000_000, 0, 5_000_000), d: Vec3::new(0, 0, -1_000_000) };
    assert!(b.hit(&ray, 1_000, FX_MAX).is_none());
}

#[test]
fn origin_inside_hits_at_the_window_floor() {
    // a large box strictly containing the origin: the window's lower
    // bound survives every axis, and the interior point is on no face,
    // so the reported normal is the zero vector
    let b = Aabb {
        min: Vec3::new(-10_000_000, -10_000_000, -10_000_000),
        max: Vec3::new(10_000_000, 10_000_000, 10_000_000),
        mat_id: 0,
    };
    let ray = Ray { o: Vec3::new(0, 0, 0), d: Vec3::new(0, 0, -1_000_000) };
    let h = b.hit(&ray, 1_000, FX_MAX).unwrap();
    assert_eq!(h.t, 1_000);
    assert_eq!(h.p, Vec3::new(0, 0, -1_000));
    assert_eq!(h.n, Vec3::new(0, 0, 0));
}

#[test]
fn oblique_ray_with_all_components_nonzero() {
    let b = unit_box();
    // from (0, 0, 5) toward the box, direction (0, 0, -1) tilted slightly
    let ray = Ray { o: Vec3::new(-500_000, -500_000, 5_000_000), d: Vec3::new(100_000, 100_000, -1_000_000) };
    let h = b.hit(&ray, 1_000, FX_MAX).unwrap();
    assert_eq!(h.n, Vec3::new(0, 0, 1_000_000));
    assert_eq!(h.t, 4_000_000);
}

#[test]
fn window_upper_bound_cuts_far_hits() {
    let b = unit_box();
    let ray = Ray { o: Vec3::new(0, 0, 5_000_000), d: Vec3::new(0, 0, -1_000_000) };
    // the hit would be at t = 4, outside a window ending at 3
    assert!(b.hit(&ray, 1_000, 3_000_000).is_none());
}
