use find_ferris::geom::{isqrt, dist_floor, within_radius, interp_scale, div_trunc_i64, clamp_i64, Vec2};
use find_ferris::anim::{sin_wave, cos_wave, normalize_angle, Mat3};

#[test]
fn isqrt_small_values() {
    assert_eq!(isqrt(0), 0);
    assert_eq!(isqrt(1), 1);
    assert_eq!(isqrt(2), 1);
    assert_eq!(isqrt(24), 4);
    assert_eq!(isqrt(25), 5);
    assert_eq!(isqrt(26), 5);
}

#[test]
fn isqrt_large_values() {
    assert_eq!(isqrt(u64::MAX), 0xFFFF_FFFF);
    assert_eq!(isqrt(1 << 62), 1 << 31);
}

#[test]
fn dist_floor_pythagorean() {
    let a = Vec2::new(0, 0);
    let b = Vec2::new(3, 4);
    assert_eq!(dist_floor(a, b), 5);
    assert_eq!(dist_floor(b, a), 5);
    assert_eq!(dist_floor(a, a), 0);
    assert_eq!(dist_floor(a, Vec2::new(1, 1)), 1);
}

#[test]
fn within_radius_strict() {
    let a = Vec2::new(0, 0);
    assert!(within_radius(a, Vec2::new(3, 4), 6));
    assert!(!within_radius(a, Vec2::new(3, 4), 5));
    assert!(!within_radius(a, Vec2::new(3, 4), 0));
    assert!(within_radius(a, a, 1));
}

#[test]
fn interp_scale_truncates_toward_zero() {
    assert_eq!(interp_scale(3, 10, 5), 6);
    assert_eq!(interp_scale(-3, 10, 5), -6);
    assert_eq!(interp_scale(2, 5, 3), 3);
    assert_eq!(interp_scale(-2, 5, 3), -3);
    assert_eq!(interp_scale(0, 100, 7), 0);
}

#[test]
fn div_trunc_matches_machine_division() {
    assert_eq!(div_trunc_i64(7, 2), 3);
    assert_eq!(div_trunc_i64(-7, 2), -3);
    assert_eq!(div_trunc_i64(6, 2), 3);
    assert_eq!(div_trunc_i64(-6, 2), -3);
    assert_eq!(div_trunc_i64(0, 5), 0);
}

#[test]
fn clamp_i64_cases() {
    assert_eq!(clamp_i64(5, 0, 10), 5);
    assert_eq!(clamp_i64(-5, 0, 10), 0);
    assert_eq!(clamp_i64(15, 0, 10), 10);
}

#[test]
fn triangle_waves() {
    assert_eq!(sin_wave(0), 0);
    assert_eq!(sin_wave(1024), 1024);
    assert_eq!(sin_wave(2048), 0);
    assert_eq!(sin_wave(3072), -1024);
    assert_eq!(cos_wave(0), 1024);
    assert_eq!(cos_wave(1024), 0);
    assert_eq!(cos_wave(2048), -1024);
    assert_eq!(cos_wave(3072), 0);
}

#[test]
fn normalize_angle_wraps() {
    assert_eq!(normalize_angle(0), 0);
    assert_eq!(normalize_angle(4096), 0);
    assert_eq!(normalize_angle(4097), 1);
    assert_eq!(normalize_angle(-1), 4095);
    assert_eq!(normalize_angle(-4096), 0);
    assert_eq!(normalize_angle(10000), 10000 % 4096);
}

#[test]
fn transforms_compose_exactly() {
    let t = Mat3::translate(Vec2::new(10, 20));
    let r = Mat3::rotation(1024);
    let m = t.compose(&r);
    assert_eq!(m.tx, 10);
    assert_eq!(m.ty, 20);
    assert_eq!(m.a, 0);
    assert_eq!(m.b, -1024);
    assert_eq!(m.c, 1024);
    assert_eq!(m.d, 0);
    let o = m.origin();
    assert_eq!(o, Vec2::new(10, 20));
    let p = m.apply(Vec2::new(1, 0));
    assert_eq!(p, Vec2::new(10, 21));
}
