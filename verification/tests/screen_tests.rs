use mandelbrot::screen::{edges_fit, total_screen, ScreenRect};

fn rect(x: i32, y: i32, width: u32, height: u32) -> ScreenRect {
    ScreenRect { x, y, width, height }
}

#[test]
fn no_monitor_gives_none() {
    assert_eq!(total_screen(&Vec::new()), None);
}

#[test]
fn one_monitor_is_its_own_area() {
    let ms = vec![rect(0, 0, 1920, 1080)];
    assert_eq!(total_screen(&ms), Some(rect(0, 0, 1920, 1080)));
}

#[test]
fn side_by_side_monitors() {
    let ms = vec![rect(0, 0, 1920, 1080), rect(1920, 0, 1280, 1024)];
    assert_eq!(total_screen(&ms), Some(rect(0, 0, 3200, 1080)));
}

#[test]
fn monitors_at_negative_positions() {
    let ms = vec![
        rect(0, 0, 1920, 1080),
        rect(-1280, 200, 1280, 1024),
        rect(500, -900, 1600, 900),
    ];
    // left -1280, right 2100, top -900, bottom 1224
    assert_eq!(total_screen(&ms), Some(rect(-1280, -900, 3380, 2124)));
}

#[test]
fn every_monitor_lies_inside_the_area() {
    let ms = vec![rect(10, 20, 100, 50), rect(-5, 40, 30, 100), rect(60, -10, 10, 10)];
    let a = total_screen(&ms).unwrap();
    for m in &ms {
        assert!(a.x <= m.x && a.y <= m.y);
        assert!(m.x as i64 + m.width as i64 <= a.x as i64 + a.width as i64);
        assert!(m.y as i64 + m.height as i64 <= a.y as i64 + a.height as i64);
    }
    assert_eq!(a, rect(-5, -10, 115, 150));
}

#[test]
fn width_above_i32_max_wraps_as_in_i32() {
    // 0xFFFF_FFFF as i32 is -1, so the right edge is x - 1.
    let ms = vec![rect(10, 0, 0xFFFF_FFFF, 5)];
    assert_eq!(total_screen(&ms), Some(rect(10, 0, 0xFFFF_FFFF, 5)));
}

#[test]
fn edges_fit_for_ordinary_monitors() {
    assert!(edges_fit(&Vec::new()));
    assert!(edges_fit(&vec![rect(0, 0, 1920, 1080), rect(-1280, 200, 1280, 1024)]));
}

#[test]
fn edge_beyond_i32_does_not_fit() {
    assert!(!edges_fit(&vec![rect(i32::MAX, 0, 1, 1)]));
    assert!(!edges_fit(&vec![rect(0, i32::MAX, 1, 1)]));
    assert!(edges_fit(&vec![rect(i32::MAX - 1, 0, 1, 1)]));
}

#[test]
fn span_beyond_i32_does_not_fit() {
    assert!(!edges_fit(&vec![rect(i32::MIN, 0, 10, 10), rect(i32::MAX - 10, 0, 10, 10)]));
    assert!(edges_fit(&vec![rect(0, 0, 10, 10), rect(i32::MAX - 10, 0, 10, 10)]));
    assert!(!edges_fit(&vec![rect(-10, 0, 10, 10), rect(i32::MAX - 10, 0, 10, 10)]));
}

#[test]
fn monitor_order_does_not_matter() {
    let a = vec![rect(0, 0, 1920, 1080), rect(-1280, 200, 1280, 1024), rect(500, -900, 1600, 900)];
    let b = vec![a[2], a[0], a[1]];
    let c = vec![a[1], a[2], a[0]];
    assert_eq!(total_screen(&a), total_screen(&b));
    assert_eq!(total_screen(&a), total_screen(&c));
    assert_eq!(edges_fit(&a), edges_fit(&b));
}
