use scarefire::camera::{mat_identity, Camera};
use scarefire::fixed::FP_ONE;
use scarefire::rational::Rat;
use scarefire::trig::{atan_q, cos_q, sin_q};

fn ratf(r: Rat) -> f64 {
    r.num as f64 / r.den as f64
}

fn fx(v: f64) -> i64 {
    (v * FP_ONE as f64) as i64
}

fn fxf(v: i64) -> f64 {
    v as f64 / FP_ONE as f64
}

#[test]
fn sine_cosine_arctangent_accuracy() {
    for &x in [0.01f64, 0.25, 0.5, 0.9, 1.2, 1.4, 1.5707].iter() {
        assert!((fxf(sin_q(fx(x))) - x.sin()).abs() < 1e-6, "sin at {x}");
        assert!((fxf(cos_q(fx(x))) - x.cos()).abs() < 1e-6, "cos at {x}");
    }
    for &t in [0.0f64, 0.2, 0.4142, 0.8, 1.0, 2.5, 10.0, 500.0].iter() {
        assert!((fxf(atan_q(fx(t))) - t.atan()).abs() < 1e-5, "atan at {t}");
    }
}

#[test]
fn perspective_matrix_has_expected_entries() {
    // 60 degrees, 16:9, near 1/1000
    let m = Camera::perspective(
        Rat::new(1047198, 1000000),
        Rat::new(16, 9),
        Rat::new(1, 1000),
    );
    let f = 1.0 / (1.0472f64 / 2.0).tan();
    assert!((ratf(m.e11) - f).abs() < 1e-4);
    assert!((ratf(m.e00) - f / (16.0 / 9.0)).abs() < 1e-4);
    assert_eq!(m.e23.num, -1);
    assert_eq!(m.e23.den, 1);
    assert_eq!((m.e32.num, m.e32.den), (1, 1000));
    assert_eq!(m.e33.num, 0);
    assert_eq!(ratf(m.e01), 0.0);
    assert_eq!(ratf(m.e22), 0.0);
}

#[test]
fn perspective_parameters_read_back() {
    let fov = 1.570796f64;
    let mut cam = Camera::new();
    let m = Camera::perspective(Rat::new(1570796, 1000000), Rat::new(16, 9), Rat::new(1, 100));
    cam.set_proj(&m);
    assert!((ratf(cam.fov()) - fov).abs() < 1e-4);
    assert!((ratf(cam.ratio()) - 16.0 / 9.0).abs() < 1e-12);
    let near = Camera::extract_near(&cam.projection);
    assert_eq!((near.num, near.den), (1, 100));
    assert!(!cam.is_orthographic());
}

#[test]
fn set_fov_keeps_ratio_and_near() {
    let mut cam = Camera::new();
    let ratio_before = ratf(cam.ratio());
    let near_before = Camera::extract_near(&cam.projection);
    cam.set_fov(Rat::new(6, 5));
    assert!((ratf(cam.fov()) - 1.2).abs() < 1e-4);
    assert!((ratf(cam.ratio()) - ratio_before).abs() < 1e-9);
    let near_after = Camera::extract_near(&cam.projection);
    assert_eq!((near_after.num, near_after.den), (near_before.num, near_before.den));
}

#[test]
fn set_ratio_keeps_fov_and_near() {
    let mut cam = Camera::new();
    let fov_before = ratf(cam.fov());
    let near_before = Camera::extract_near(&cam.projection);
    cam.set_ratio(Rat::new(4, 3));
    assert!((ratf(cam.ratio()) - 4.0 / 3.0).abs() < 1e-12);
    assert!((ratf(cam.fov()) - fov_before).abs() < 1e-4);
    let near_after = Camera::extract_near(&cam.projection);
    assert_eq!((near_after.num, near_after.den), (near_before.num, near_before.den));
}

#[test]
fn identity_view_gives_axis_basis() {
    let mut cam = Camera::new();
    cam.set_view(&mat_identity());
    let fwd = cam.forward();
    assert_eq!((fwd.x.num, fwd.y.num, fwd.z.num), (0, 0, -(FP_ONE as i128)));
    let right = cam.right();
    assert_eq!((right.x.num, right.y.num, right.z.num), ((FP_ONE as i128), 0, 0));
    let up = cam.up();
    assert_eq!((up.x.num, up.y.num, up.z.num), (0, (FP_ONE as i128), 0));
    let pos = cam.position();
    assert_eq!((pos.x.num, pos.y.num, pos.z.num), (0, 0, 0));
}

#[test]
fn default_view_looks_from_two_two_two() {
    let cam = Camera::new();
    // the camera sits at (2, 2, 2) ...
    let pos = cam.position();
    assert!((pos.x.num as f64 / pos.x.den as f64 - 2.0).abs() < 1e-4);
    assert!((pos.y.num as f64 / pos.y.den as f64 - 2.0).abs() < 1e-4);
    assert!((pos.z.num as f64 / pos.z.den as f64 - 2.0).abs() < 1e-4);
    // ... and looks toward the origin, with y still upward
    let fwd = cam.forward();
    let a = -1.0 / 3f64.sqrt();
    let den = FP_ONE as f64;
    assert!((fwd.x.num as f64 / den - a).abs() < 1e-5);
    assert!((fwd.y.num as f64 / den - a).abs() < 1e-5);
    assert!((fwd.z.num as f64 / den - a).abs() < 1e-5);
    let up = cam.up();
    assert!(up.y.num > 0);
}

#[test]
fn translated_view_recovers_position() {
    let mut cam = Camera::new();
    let mut view = mat_identity();
    // view translation encodes the negated camera position
    view.e30 = Rat::new(-3, 1);
    view.e31 = Rat::new(-4, 1);
    view.e32 = Rat::new(5, 2);
    cam.set_view(&view);
    let pos = cam.position();
    assert!((pos.x.num as f64 / pos.x.den as f64 - 3.0).abs() < 1e-6);
    assert!((pos.y.num as f64 / pos.y.den as f64 - 4.0).abs() < 1e-6);
    assert!((pos.z.num as f64 / pos.z.den as f64 + 2.5).abs() < 1e-6);
}

#[test]
fn square_frustum_normals_are_symmetric() {
    // 90 degree vertical field of view at a 1:1 aspect ratio, seen
    // through the identity view so the basis is axis-aligned
    let mut cam = Camera::new();
    cam.set_view(&mat_identity());
    let m = Camera::perspective(Rat::new(1570796, 1000000), Rat::new(1, 1), Rat::new(1, 100));
    cam.set_proj(&m);
    let f = cam.build_frustum();
    // top and bottom are mirror images about the forward direction
    assert_eq!(f.top_normal.y.num, -f.bottom_normal.y.num);
    assert_eq!(f.top_normal.z.num, f.bottom_normal.z.num);
    assert_eq!(f.top_normal.x.num + f.bottom_normal.x.num, 0);
    // left and right are mirror images about the right direction
    assert_eq!(f.left_normal.x.num, -f.right_normal.x.num);
    assert_eq!(f.left_normal.z.num, f.right_normal.z.num);
    // the half angle is 45 degrees, so the components sit near 1/sqrt(2)
    let den = f.top_normal.y.den as f64;
    let s = std::f64::consts::FRAC_1_SQRT_2;
    assert!((f.top_normal.y.num as f64 / den + s).abs() < 1e-4);
    assert!((f.bottom_normal.y.num as f64 / den - s).abs() < 1e-4);
    assert!((f.top_normal.z.num as f64 / den + s).abs() < 1e-4);
    assert!((f.left_normal.x.num as f64 / den - s).abs() < 1e-3);
    assert!((f.right_normal.x.num as f64 / den + s).abs() < 1e-3);
    // the near plane faces forward
    assert_eq!(f.near_normal.z.num, -(FP_ONE as i128));
}

#[test]
fn orthographic_projection_reports_zero_fov() {
    let mut cam = Camera::new();
    let view = mat_identity();
    cam.set_view(&view);
    let mut ortho = mat_identity();
    ortho.e33 = Rat::new(1, 1);
    cam.set_proj(&ortho);
    assert!(cam.is_orthographic());
    let f = cam.fov();
    assert_eq!((f.num, f.den), (0, 1));
}
