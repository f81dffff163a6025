use inception_diorama::fixed::{
    fx_add, fx_clamp01, fx_div, fx_exp_neg, fx_mul, fx_neg, fx_pow34, fx_pow5, fx_sqrt, fx_sub,
    FX_MAX, SCALE,
};
use inception_diorama::math::{fresnel_schlick, lerp, reflect, refract, v, Vec3};

#[test]
fn scalar_arithmetic_is_exact_in_range() {
    assert_eq!(fx_add(250_000, 500_000), 750_000);
    assert_eq!(fx_sub(250_000, 500_000), -250_000);
    assert_eq!(fx_mul(500_000, 500_000), 250_000); // 0.5 * 0.5
    assert_eq!(fx_div(1_000_000, 2_000_000), 500_000); // 1 / 2
    assert_eq!(fx_neg(123), -123);
}

#[test]
fn scalar_arithmetic_saturates() {
    assert_eq!(fx_add(FX_MAX, FX_MAX), FX_MAX);
    assert_eq!(fx_sub(-FX_MAX, FX_MAX), -FX_MAX);
    assert_eq!(fx_mul(FX_MAX, FX_MAX), FX_MAX);
}

#[test]
fn products_and_quotients_round_toward_zero() {
    assert_eq!(fx_mul(-1, 500_000), 0); // -0.5 ticks rounds up to zero
    assert_eq!(fx_mul(1, 500_000), 0);
    assert_eq!(fx_div(-3, 2_000_000), -1); // -1.5 ticks rounds up to -1
    assert_eq!(fx_div(1_000_000, -2_000_000), -500_000);
}

#[test]
fn division_by_zero_saturates_with_the_dividend_sign() {
    assert_eq!(fx_div(5, 0), FX_MAX);
    assert_eq!(fx_div(-5, 0), -FX_MAX);
    assert_eq!(fx_div(0, 0), 0);
}

#[test]
fn square_root_is_exact_on_squares() {
    assert_eq!(fx_sqrt(4_000_000), 2_000_000); // sqrt 4 = 2
    assert_eq!(fx_sqrt(250_000), 500_000); // sqrt 1/4 = 1/2
    assert_eq!(fx_sqrt(0), 0);
    assert_eq!(fx_sqrt(-7), 0);
}

#[test]
fn clamp01_clamps() {
    assert_eq!(fx_clamp01(-3), 0);
    assert_eq!(fx_clamp01(SCALE + 1), SCALE);
    assert_eq!(fx_clamp01(123_456), 123_456);
}

#[test]
fn fifth_power_on_unit_values() {
    assert_eq!(fx_pow5(SCALE), SCALE);
    assert_eq!(fx_pow5(0), 0);
    assert_eq!(fx_pow5(500_000), 31_250); // 0.5^5 = 0.03125
}

#[test]
fn decaying_exponential_anchors() {
    assert_eq!(fx_exp_neg(0), SCALE); // e^0 = 1
    assert_eq!(fx_exp_neg(100_000), 905_348); // near e^-0.1 = 0.904837
    assert_eq!(fx_exp_neg(1_024_000_000), 0); // base floored at zero
}

#[test]
fn three_quarter_power_endpoints() {
    assert_eq!(fx_pow34(0), 0);
    assert_eq!(fx_pow34(SCALE), SCALE);
}

#[test]
fn vector_componentwise_ops() {
    let a = Vec3::new(1_000_000, 2_000_000, -3_000_000);
    let b = Vec3::new(500_000, -500_000, 1_500_000);
    assert_eq!(a.add(b), Vec3::new(1_500_000, 1_500_000, -1_500_000));
    assert_eq!(a.sub(b), Vec3::new(500_000, 2_500_000, -4_500_000));
    assert_eq!(a.mul(b), Vec3::new(500_000, -1_000_000, -4_500_000));
    assert_eq!(a.scale(500_000), Vec3::new(500_000, 1_000_000, -1_500_000));
    assert_eq!(a.div(2_000_000), Vec3::new(500_000, 1_000_000, -1_500_000));
    assert_eq!(a.neg(), Vec3::new(-1_000_000, -2_000_000, 3_000_000));
    assert_eq!(v(42), Vec3::new(42, 42, 42));
}

#[test]
fn dot_length_and_normalization() {
    let a = Vec3::new(3_000_000, 4_000_000, 0);
    assert_eq!(a.dot(a), 25_000_000); // |a|^2 = 25
    assert_eq!(a.len(), 5_000_000); // |a| = 5
    assert_eq!(a.norm(), Vec3::new(600_000, 800_000, 0)); // (0.6, 0.8, 0)
}

#[test]
fn normalizing_the_zero_vector_stays_zero() {
    let z = Vec3::new(0, 0, 0);
    assert_eq!(z.norm(), z);
}

#[test]
fn vector_clamp01_and_lerp() {
    let a = Vec3::new(-5, 500_000, 2_000_000);
    assert_eq!(a.clamp01(), Vec3::new(0, 500_000, 1_000_000));
    let lo = Vec3::new(0, 0, 0);
    let hi = Vec3::new(1_000_000, 500_000, 250_000);
    assert_eq!(lerp(lo, hi, 0), lo);
    assert_eq!(lerp(lo, hi, SCALE), hi);
    assert_eq!(lerp(lo, hi, 500_000), Vec3::new(500_000, 250_000, 125_000));
}

#[test]
fn reflect_about_an_axis_face() {
    let d = Vec3::new(300_000, -400_000, 866_025);
    let n = Vec3::new(0, 1_000_000, 0);
    assert_eq!(reflect(d, n), Vec3::new(300_000, 400_000, 866_025));
}

#[test]
fn reflecting_twice_returns_the_direction() {
    let d = Vec3::new(300_000, -400_000, 866_025);
    for n in [
        Vec3::new(1_000_000, 0, 0),
        Vec3::new(-1_000_000, 0, 0),
        Vec3::new(0, 1_000_000, 0),
        Vec3::new(0, -1_000_000, 0),
        Vec3::new(0, 0, 1_000_000),
        Vec3::new(0, 0, -1_000_000),
    ] {
        assert_eq!(reflect(reflect(d, n), n), d);
    }
    // an oblique normal whose arithmetic happens to divide evenly
    let d2 = Vec3::new(1_000_000, 0, 0);
    let n2 = Vec3::new(600_000, 800_000, 0);
    assert_eq!(reflect(d2, n2), Vec3::new(280_000, -960_000, 0));
    assert_eq!(reflect(reflect(d2, n2), n2), d2);
}

#[test]
fn refraction_past_the_critical_angle_is_none() {
    // leaving glass, ratio 1.5: the critical cosine is near 0.745
    let n = Vec3::new(0, 0, 1_000_000);
    let steep = Vec3::new(672_600, 0, -740_000); // cosine 0.74: total internal
    assert!(refract(steep, n, 1_500_000).is_none());
}

#[test]
fn refraction_inside_the_critical_angle_bends() {
    let n = Vec3::new(0, 0, 1_000_000);
    let shallow = Vec3::new(650_000, 0, -760_000); // cosine 0.76: refracts
    let td = refract(shallow, n, 1_500_000).unwrap();
    assert_eq!(td, Vec3::new(975_000, 0, -222_710));
}

#[test]
fn fresnel_at_normal_incidence_is_the_base_reflectance() {
    let f0 = Vec3::new(40_000, 40_000, 40_000);
    assert_eq!(fresnel_schlick(SCALE, f0), f0);
}

#[test]
fn fresnel_at_grazing_incidence_reaches_white() {
    let f0 = Vec3::new(40_000, 40_000, 40_000);
    assert_eq!(fresnel_schlick(0, f0), Vec3::new(1_000_000, 1_000_000, 1_000_000));
}
