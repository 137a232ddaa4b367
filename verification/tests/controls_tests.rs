use mandelbrot::controls::{Action, Controls, Event, Key, MouseButton, RenderOutcome, COLOR_COUNT};
use mandelbrot::vec2::Vec2U32;

fn key(k: Key) -> Event {
    Event::KeyboardInput { key: k, pressed: true }
}

fn button(b: MouseButton, pressed: bool) -> Event {
    Event::MouseInput { button: b, pressed }
}

#[test]
fn starts_idle() {
    let c = Controls::new(false);
    assert!(!c.ctrl_key && !c.left_mouse && !c.right_mouse && !c.dragging && !c.mouse_known);
    assert_eq!(c.color, 0);
    assert!(!c.wallpaper);
}

#[test]
fn escape_q_and_close_exit_a_window() {
    let mut c = Controls::new(false);
    assert_eq!(c.step(key(Key::Escape)), Action::Exit);
    assert_eq!(c.step(key(Key::Q)), Action::Exit);
    assert_eq!(c.step(Event::CloseRequested), Action::Exit);
    assert_eq!(c.step(Event::KeyboardInput { key: Key::Escape, pressed: false }), Action::Nothing);
}

#[test]
fn wallpaper_ignores_exit_inputs() {
    let mut c = Controls::new(true);
    assert_eq!(c.step(key(Key::Escape)), Action::Nothing);
    assert_eq!(c.step(key(Key::Q)), Action::Nothing);
    assert_eq!(c.step(Event::CloseRequested), Action::Nothing);
    assert_eq!(c.step(Event::Rendered(RenderOutcome::OutOfMemory)), Action::Exit);
}

#[test]
fn r_and_middle_click_reset() {
    let mut c = Controls::new(false);
    assert_eq!(c.step(key(Key::R)), Action::Reset);
    assert_eq!(c.step(button(MouseButton::Middle, true)), Action::Reset);
    assert_eq!(c.step(button(MouseButton::Middle, false)), Action::Nothing);
}

#[test]
fn arrow_keys_change_precision() {
    let mut c = Controls::new(false);
    assert_eq!(c.step(key(Key::Up)), Action::ChangePrecision(1));
    assert_eq!(c.step(key(Key::Down)), Action::ChangePrecision(-1));
    assert_eq!(c.step(Event::ModifiersChanged { ctrl: true }), Action::Nothing);
    assert!(c.ctrl_key);
    assert_eq!(c.step(key(Key::Up)), Action::ChangePrecision(10));
    assert_eq!(c.step(key(Key::Down)), Action::ChangePrecision(-10));
    assert_eq!(c.step(Event::KeyboardInput { key: Key::Up, pressed: false }), Action::Nothing);
    assert_eq!(c.step(key(Key::Other)), Action::Nothing);
}

#[test]
fn resize_events() {
    let mut c = Controls::new(false);
    assert_eq!(c.step(Event::Resized(Vec2U32([3, 4]))), Action::Resize(Vec2U32([3, 4])));
    assert_eq!(
        c.step(Event::ScaleFactorChanged(Vec2U32([5, 6]))),
        Action::Resize(Vec2U32([5, 6]))
    );
}

#[test]
fn dragging_needs_two_moves_with_left_button() {
    let mut c = Controls::new(false);
    assert_eq!(c.step(Event::CursorMoved), Action::Nothing);
    assert!(c.mouse_known && !c.dragging);
    assert_eq!(c.step(button(MouseButton::Left, true)), Action::Nothing);
    assert_eq!(c.step(Event::CursorMoved), Action::Nothing);
    assert!(c.dragging);
    assert_eq!(c.step(Event::CursorMoved), Action::Drag);
    assert_eq!(c.step(button(MouseButton::Left, false)), Action::Nothing);
    assert_eq!(c.step(Event::CursorMoved), Action::Nothing);
    assert!(!c.dragging);
}

#[test]
fn wheel_zooms_or_changes_precision() {
    let mut c = Controls::new(false);
    assert_eq!(c.step(Event::MouseWheel { steps: 2 }), Action::Nothing);
    c.step(Event::CursorMoved);
    assert_eq!(c.step(Event::MouseWheel { steps: 2 }), Action::Zoom { multiplier: 1 });
    c.step(Event::ModifiersChanged { ctrl: true });
    assert_eq!(c.step(Event::MouseWheel { steps: 2 }), Action::Zoom { multiplier: 3 });
    c.step(button(MouseButton::Right, true));
    assert_eq!(c.step(Event::MouseWheel { steps: -3 }), Action::ChangePrecision(-30));
    c.step(Event::ModifiersChanged { ctrl: false });
    assert_eq!(c.step(Event::MouseWheel { steps: 7 }), Action::ChangePrecision(7));
}

#[test]
fn left_click_with_right_held_cycles_colors() {
    let mut c = Controls::new(false);
    assert_eq!(c.step(button(MouseButton::Left, true)), Action::Nothing);
    c.step(button(MouseButton::Left, false));
    c.step(button(MouseButton::Right, true));
    for i in 1..=COLOR_COUNT {
        assert_eq!(c.step(button(MouseButton::Left, true)), Action::SetColor(i % COLOR_COUNT));
        assert_eq!(c.step(button(MouseButton::Left, false)), Action::Nothing);
    }
    assert_eq!(c.color, 0);
    assert_eq!(c.step(button(MouseButton::Right, false)), Action::Nothing);
    assert_eq!(c, Controls::new(false));
}

#[test]
fn frame_events() {
    let mut c = Controls::new(false);
    assert_eq!(c.step(Event::RedrawRequested), Action::Render);
    assert_eq!(c.step(Event::MainEventsCleared), Action::RequestRedraw);
    assert_eq!(c.step(Event::Rendered(RenderOutcome::Presented)), Action::Nothing);
    assert_eq!(c.step(Event::Rendered(RenderOutcome::Lost)), Action::Reconfigure);
    assert_eq!(c.step(Event::Rendered(RenderOutcome::OutOfMemory)), Action::Exit);
    assert_eq!(c.step(Event::Rendered(RenderOutcome::Failed)), Action::ReportError);
    assert_eq!(c.step(Event::Other), Action::Nothing);
}

#[test]
fn wallpaper_exits_only_on_out_of_memory() {
    let mut c = Controls::new(true);
    let events = [
        Event::CloseRequested,
        key(Key::Escape),
        key(Key::Q),
        button(MouseButton::Right, true),
        button(MouseButton::Left, true),
        Event::CursorMoved,
        Event::MouseWheel { steps: 4 },
        Event::ModifiersChanged { ctrl: true },
        key(Key::Q),
        Event::Rendered(RenderOutcome::Lost),
        Event::Rendered(RenderOutcome::Failed),
        Event::RedrawRequested,
    ];
    for e in events {
        assert_ne!(c.step(e), Action::Exit);
        assert!(c.wallpaper);
    }
    assert_eq!(c.step(Event::Rendered(RenderOutcome::OutOfMemory)), Action::Exit);
}
