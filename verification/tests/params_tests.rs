use mandelbrot::params::{Params, DEFAULT_MAX_ITERATIONS};
use mandelbrot::vec2::Vec2U32;

#[test]
fn vec2_components() {
    let v = Vec2U32([640, 480]);
    assert_eq!(v.x(), 640);
    assert_eq!(v.y(), 480);
}

#[test]
fn new_params_use_default_precision() {
    let p = Params::new(Vec2U32([800, 600]));
    assert_eq!(p.size(), Vec2U32([800, 600]));
    assert_eq!(p.max_iterations(), 50);
    assert_eq!(DEFAULT_MAX_ITERATIONS, 50);
}

#[test]
fn resize_takes_nonzero_size() {
    let mut p = Params::new(Vec2U32([800, 600]));
    assert!(p.resize(Vec2U32([1024, 768])));
    assert_eq!(p.size(), Vec2U32([1024, 768]));
    assert_eq!(p.max_iterations(), 50);
}

#[test]
fn resize_ignores_zero_width_or_height() {
    let mut p = Params::new(Vec2U32([800, 600]));
    assert!(!p.resize(Vec2U32([0, 768])));
    assert!(!p.resize(Vec2U32([1024, 0])));
    assert!(!p.resize(Vec2U32([0, 0])));
    assert_eq!(p.size(), Vec2U32([800, 600]));
}

#[test]
fn change_precision_adds() {
    let mut p = Params::new(Vec2U32([10, 10]));
    p.change_precision(10);
    assert_eq!(p.max_iterations(), 60);
    p.change_precision(-1);
    assert_eq!(p.max_iterations(), 59);
}

#[test]
fn change_precision_clamps_at_zero() {
    let mut p = Params::new(Vec2U32([10, 10]));
    p.change_precision(-60);
    assert_eq!(p.max_iterations(), 0);
    p.change_precision(i32::MIN);
    assert_eq!(p.max_iterations(), 0);
}

#[test]
fn change_precision_up_to_i32_max() {
    let mut p = Params::new(Vec2U32([10, 10]));
    p.change_precision(i32::MAX - 50);
    assert_eq!(p.max_iterations(), i32::MAX as u32);
}

#[test]
fn change_precision_undone_by_opposite_change() {
    let mut p = Params::new(Vec2U32([10, 10]));
    p.change_precision(25);
    p.change_precision(-25);
    assert_eq!(p.max_iterations(), 50);
}

#[test]
fn reset_restores_precision_and_keeps_size() {
    let mut p = Params::new(Vec2U32([10, 10]));
    assert!(p.resize(Vec2U32([300, 200])));
    p.change_precision(123);
    p.reset();
    assert_eq!(p.max_iterations(), 50);
    assert_eq!(p.size(), Vec2U32([300, 200]));
}

#[test]
fn vertex_count_is_one_per_pixel() {
    let p = Params::new(Vec2U32([800, 600]));
    assert_eq!(p.vertex_count(), 480_000);
    let q = Params::new(Vec2U32([65536, 65535]));
    assert_eq!(q.vertex_count(), 4_294_901_760);
}

#[test]
fn reset_absorbs_earlier_changes() {
    let mut p = Params::new(Vec2U32([640, 480]));
    p.change_precision(30);
    p.change_precision(-100);
    p.change_precision(7);
    p.reset();
    let mut q = Params::new(Vec2U32([640, 480]));
    q.reset();
    assert_eq!(p.max_iterations(), q.max_iterations());
    assert_eq!(p.size(), q.size());
    p.reset();
    assert_eq!(p.max_iterations(), 50);
    assert_eq!(p.size(), Vec2U32([640, 480]));
}
