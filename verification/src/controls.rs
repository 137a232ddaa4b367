use vstd::prelude::*;

use crate::params::{lemma_change_precision_undone, precision_after};
use crate::vec2::Vec2U32;

verus! {

/// How many colours the viewer cycles through.
pub const COLOR_COUNT: usize = 8;

/// The keys the viewer reacts to.
#[derive(Debug, Clone, Copy, PartialEq, Eq)]
pub enum Key {
    Escape,
    Q,
    R,
    Up,
    Down,
    Other,
}

/// The mouse buttons the viewer tells apart.
#[derive(Debug, Clone, Copy, PartialEq, Eq)]
pub enum MouseButton {
    Left,
    Right,
    Middle,
    Other,
}

/// How drawing a frame ended.
#[derive(Debug, Clone, Copy, PartialEq, Eq)]
pub enum RenderOutcome {
    /// The frame was drawn and presented.
    Presented,
    /// The drawing surface was lost and must be configured again.
    Lost,
    /// The GPU ran out of memory.
    OutOfMemory,
    /// Any other surface error; it is reported and the next frame tried.
    Failed,
}

/// An input to the viewer, with the integer and boolean data that its
/// handling depends on.
#[derive(Debug, Clone, Copy, PartialEq, Eq)]
pub enum Event {
    /// The window was asked to close.
    CloseRequested,
    /// A key went down (`pressed`) or up.
    KeyboardInput { key: Key, pressed: bool },
    /// The window's inner size changed.
    Resized(Vec2U32),
    /// The scale factor changed, giving the window this inner size.
    ScaleFactorChanged(Vec2U32),
    /// The cursor moved within the window.
    CursorMoved,
    /// The scroll wheel turned; `steps` is its vertical delta as a whole
    /// number (lines, or pixels for a touchpad).
    MouseWheel { steps: i32 },
    /// The modifier keys changed; `ctrl` says whether control is held.
    ModifiersChanged { ctrl: bool },
    /// A mouse button went down (`pressed`) or up.
    MouseInput { button: MouseButton, pressed: bool },
    /// A frame is due.
    RedrawRequested,
    /// Drawing a frame ended so.
    Rendered(RenderOutcome),
    /// All pending events were handled.
    MainEventsCleared,
    /// Any event the viewer ignores.
    Other,
}

/// What the viewer does in answer to an event.
#[derive(Debug, Clone, Copy, PartialEq, Eq)]
pub enum Action {
    Nothing,
    /// Close the window and stop.
    Exit,
    /// Take a new surface size.
    Resize(Vec2U32),
    /// Return to the default position, zoom and precision.
    Reset,
    /// Change the iteration limit by this much.
    ChangePrecision(i32),
    /// Move the view by how far the cursor moved since the drag's last point.
    Drag,
    /// Zoom around the cursor by the wheel's delta times `multiplier`.
    Zoom { multiplier: u32 },
    /// Draw with the colour of this index.
    SetColor(usize),
    /// Draw a frame.
    Render,
    /// Configure the drawing surface again.
    Reconfigure,
    /// Report a failed frame.
    ReportError,
    /// Ask the window for a new frame.
    RequestRedraw,
}

/// What the viewer remembers between input events.
#[derive(Debug, Clone, Copy, PartialEq, Eq)]
pub struct Controls {
    /// The window is a desktop wallpaper: it cannot be closed from the keyboard.
    pub wallpaper: bool,
    /// Control is held: changes go faster.
    pub ctrl_key: bool,
    /// The left button is down.
    pub left_mouse: bool,
    /// The right button is down.
    pub right_mouse: bool,
    /// The cursor's last position while the left button was down is held, as
    /// the point a drag moves from.
    pub dragging: bool,
    /// The cursor's position is known.
    pub mouse_known: bool,
    /// The index of the current colour.
    pub color: usize,
}

/// The step by which the arrow keys change the precision.
pub open spec fn key_step(ctrl: bool) -> i32 {
    if ctrl {
        10
    } else {
        1
    }
}

/// The colour index after `color`, cyclically.
pub open spec fn next_color(color: int) -> int {
    (color + 1) % (COLOR_COUNT as int)
}

/// The viewer's handling of one event: the state after it and the action.
pub open spec fn next(s: Controls, e: Event) -> (Controls, Action) {
    match e {
        Event::CloseRequested => (s, if s.wallpaper { Action::Nothing } else { Action::Exit }),
        Event::KeyboardInput { key, pressed } => {
            if !pressed {
                (s, Action::Nothing)
            } else {
                match key {
                    Key::Escape | Key::Q => (
                        s,
                        if s.wallpaper { Action::Nothing } else { Action::Exit },
                    ),
                    Key::R => (s, Action::Reset),
                    Key::Up => (s, Action::ChangePrecision(key_step(s.ctrl_key))),
                    Key::Down => (s, Action::ChangePrecision((-key_step(s.ctrl_key)) as i32)),
                    Key::Other => (s, Action::Nothing),
                }
            }
        },
        Event::Resized(size) => (s, Action::Resize(size)),
        Event::ScaleFactorChanged(size) => (s, Action::Resize(size)),
        Event::CursorMoved => (
            Controls { dragging: s.left_mouse, mouse_known: true, ..s },
            if s.left_mouse && s.dragging { Action::Drag } else { Action::Nothing },
        ),
        Event::MouseWheel { steps } => {
            if s.right_mouse {
                (s, Action::ChangePrecision((steps * key_step(s.ctrl_key)) as i32))
            } else if s.mouse_known {
                (s, Action::Zoom { multiplier: if s.ctrl_key { 3 } else { 1 } })
            } else {
                (s, Action::Nothing)
            }
        },
        Event::ModifiersChanged { ctrl } => (Controls { ctrl_key: ctrl, ..s }, Action::Nothing),
        Event::MouseInput { button, pressed } => {
            if button == MouseButton::Middle && pressed {
                (s, Action::Reset)
            } else {
                let s1 = match button {
                    MouseButton::Left => Controls { left_mouse: pressed, ..s },
                    MouseButton::Right => Controls { right_mouse: pressed, ..s },
                    _ => s,
                };
                if button == MouseButton::Left && pressed && s1.right_mouse {
                    let c = next_color(s.color as int) as usize;
                    (Controls { color: c, ..s1 }, Action::SetColor(c))
                } else {
                    (s1, Action::Nothing)
                }
            }
        },
        Event::RedrawRequested => (s, Action::Render),
        Event::Rendered(outcome) => (
            s,
            match outcome {
                RenderOutcome::Presented => Action::Nothing,
                RenderOutcome::Lost => Action::Reconfigure,
                RenderOutcome::OutOfMemory => Action::Exit,
                RenderOutcome::Failed => Action::ReportError,
            },
        ),
        Event::MainEventsCleared => (s, Action::RequestRedraw),
        Event::Other => (s, Action::Nothing),
    }
}

/// Whether handling `e` in state `s` keeps its arithmetic within `i32`: the
/// wheel's steps, scaled for a precision change, must fit.
pub open spec fn fits_i32(s: Controls, e: Event) -> bool {
    match e {
        Event::MouseWheel { steps } => s.right_mouse ==> i32::MIN <= steps * key_step(s.ctrl_key)
            <= i32::MAX,
        _ => true,
    }
}

impl Controls {
    /// The colour index is one of the colours.
    pub open spec fn wf(self) -> bool {
        self.color < COLOR_COUNT
    }

    /// The state at start: no key or button held, no cursor position, the
    /// first colour.
    pub fn new(wallpaper: bool) -> (c: Controls)
        ensures
            c.wf(),
            c == (Controls {
                wallpaper,
                ctrl_key: false,
                left_mouse: false,
                right_mouse: false,
                dragging: false,
                mouse_known: false,
                color: 0,
            }),
    {
        Controls {
            wallpaper,
            ctrl_key: false,
            left_mouse: false,
            right_mouse: false,
            dragging: false,
            mouse_known: false,
            color: 0,
        }
    }

    /// Handles one event: updates the state and says what to do.
    pub fn step(&mut self, event: Event) -> (action: Action)
        requires
            old(self).wf(),
            fits_i32(*old(self), event),
        ensures
            final(self).wf(),
            (*final(self), action) == next(*old(self), event),
    {
        match event {
            Event::CloseRequested => {
                if self.wallpaper {
                    Action::Nothing
                } else {
                    Action::Exit
                }
            },
            Event::KeyboardInput { key, pressed } => {
                if !pressed {
                    return Action::Nothing;
                }
                match key {
                    Key::Escape | Key::Q => {
                        if self.wallpaper {
                            Action::Nothing
                        } else {
                            Action::Exit
                        }
                    },
                    Key::R => Action::Reset,
                    Key::Up | Key::Down => {
                        let mut delta: i32 = if self.ctrl_key {
                            10
                        } else {
                            1
                        };
                        if matches!(key, Key::Down) {
                            delta = -delta;
                        }
                        Action::ChangePrecision(delta)
                    },
                    Key::Other => Action::Nothing,
                }
            },
            Event::Resized(size) => Action::Resize(size),
            Event::ScaleFactorChanged(size) => Action::Resize(size),
            Event::CursorMoved => {
                let action = if self.left_mouse && self.dragging {
                    Action::Drag
                } else {
                    Action::Nothing
                };
                self.dragging = self.left_mouse;
                self.mouse_known = true;
                action
            },
            Event::MouseWheel { steps } => {
                if self.right_mouse {
                    let multiplier: i32 = if self.ctrl_key {
                        10
                    } else {
                        1
                    };
                    Action::ChangePrecision(steps * multiplier)
                } else if self.mouse_known {
                    Action::Zoom {
                        multiplier: if self.ctrl_key {
                            3
                        } else {
                            1
                        },
                    }
                } else {
                    Action::Nothing
                }
            },
            Event::ModifiersChanged { ctrl } => {
                self.ctrl_key = ctrl;
                Action::Nothing
            },
            Event::MouseInput { button, pressed } => {
                match button {
                    MouseButton::Middle => {
                        if pressed {
                            return Action::Reset;
                        }
                    },
                    MouseButton::Left => {
                        self.left_mouse = pressed;
                    },
                    MouseButton::Right => {
                        self.right_mouse = pressed;
                    },
                    MouseButton::Other => {},
                }
                let left_click = match button {
                    MouseButton::Left => pressed,
                    _ => false,
                };
                if left_click && self.right_mouse {
                    self.color = (self.color + 1) % COLOR_COUNT;
                    Action::SetColor(self.color)
                } else {
                    Action::Nothing
                }
            },
            Event::RedrawRequested => Action::Render,
            Event::Rendered(outcome) => match outcome {
                RenderOutcome::Presented => Action::Nothing,
                RenderOutcome::Lost => Action::Reconfigure,
                RenderOutcome::OutOfMemory => Action::Exit,
                RenderOutcome::Failed => Action::ReportError,
            },
            Event::MainEventsCleared => Action::RequestRedraw,
            Event::Other => Action::Nothing,
        }
    }
}

/// A left click (press, then release) while in state `s`.
pub open spec fn left_click(s: Controls) -> Controls {
    let pressed = next(s, Event::MouseInput { button: MouseButton::Left, pressed: true }).0;
    next(pressed, Event::MouseInput { button: MouseButton::Left, pressed: false }).0
}

/// `k` left clicks in a row, from state `s`.
pub open spec fn left_clicks(s: Controls, k: nat) -> Controls
    decreases k,
{
    if k == 0 {
        s
    } else {
        left_click(left_clicks(s, (k - 1) as nat))
    }
}

/// With the right button held, each left click moves to the next colour and
/// changes nothing else, so `k` clicks move `k` colours on, cyclically.
pub proof fn lemma_left_clicks_cycle_colors(s: Controls, k: nat)
    requires
        s.wf(),
        s.right_mouse,
        !s.left_mouse,
    ensures
        left_clicks(s, k) == (Controls { color: ((s.color + k) % (COLOR_COUNT as int)) as usize, ..s }),
    decreases k,
{
    if k > 0 {
        lemma_left_clicks_cycle_colors(s, (k - 1) as nat);
        let prev = (s.color + (k - 1)) % (COLOR_COUNT as int);
        assert((prev + 1) % (COLOR_COUNT as int) == (s.color + k) % (COLOR_COUNT as int));
    }
}

/// Clicking through all the colours, with the right button held, comes back to
/// the state one started from.
pub proof fn lemma_color_cycle_returns(s: Controls)
    requires
        s.wf(),
        s.right_mouse,
        !s.left_mouse,
    ensures
        left_clicks(s, COLOR_COUNT as nat) == s,
{
    lemma_left_clicks_cycle_colors(s, COLOR_COUNT as nat);
    assert((s.color + COLOR_COUNT) % (COLOR_COUNT as int) == s.color);
}

/// In wallpaper mode no input ends the viewer: only running out of GPU memory
/// does. Outside it, closing the window, Escape and Q do.
pub proof fn lemma_exit(s: Controls, e: Event)
    ensures
        s.wallpaper && next(s, e).1 == Action::Exit ==> e == Event::Rendered(
            RenderOutcome::OutOfMemory,
        ),
        !s.wallpaper ==> (next(s, e).1 == Action::Exit <==> (e == Event::CloseRequested || e
            == Event::KeyboardInput { key: Key::Escape, pressed: true } || e
            == Event::KeyboardInput { key: Key::Q, pressed: true } || e == Event::Rendered(
            RenderOutcome::OutOfMemory,
        ))),
{
}

/// No event changes whether the viewer is a wallpaper, and the colour index
/// stays one of the colours.
pub proof fn lemma_step_keeps(s: Controls, e: Event)
    requires
        s.wf(),
    ensures
        next(s, e).0.wallpaper == s.wallpaper,
        next(s, e).0.wf(),
{
}

/// The state after handling the events `es`, in order, from state `s`.
pub open spec fn run(s: Controls, es: Seq<Event>) -> Controls
    decreases es.len(),
{
    if es.len() == 0 {
        s
    } else {
        next(run(s, es.drop_last()), es.last()).0
    }
}

/// The actions taken in handling the events `es`, in order, from state `s`.
pub open spec fn run_actions(s: Controls, es: Seq<Event>) -> Seq<Action>
    decreases es.len(),
{
    if es.len() == 0 {
        Seq::empty()
    } else {
        run_actions(s, es.drop_last()).push(next(run(s, es.drop_last()), es.last()).1)
    }
}

/// In wallpaper mode, whatever events come, the viewer stays in wallpaper
/// mode and the only event answered by exiting is a frame that ran out of
/// GPU memory.
pub proof fn lemma_wallpaper_run(s: Controls, es: Seq<Event>)
    requires
        s.wallpaper,
    ensures
        run(s, es).wallpaper,
        run_actions(s, es).len() == es.len(),
        forall|i: int|
            0 <= i < es.len() && #[trigger] run_actions(s, es)[i] == Action::Exit ==> es[i]
                == Event::Rendered(RenderOutcome::OutOfMemory),
    decreases es.len(),
{
    if es.len() > 0 {
        let init = es.drop_last();
        lemma_wallpaper_run(s, init);
        lemma_exit(run(s, init), es.last());
        assert forall|i: int|
            0 <= i < es.len() && #[trigger] run_actions(s, es)[i] == Action::Exit implies es[i]
                == Event::Rendered(RenderOutcome::OutOfMemory) by {
            if i < es.len() - 1 {
                assert(run_actions(s, es)[i] == run_actions(s, init)[i]);
                assert(es[i] == init[i]);
            }
        }
    }
}

/// A cursor move keeps everything but the drag anchor and the known cursor:
/// afterwards the cursor is known and an anchor is held exactly when the left
/// button is down. The move drags exactly when the left button is down and an
/// anchor was held; otherwise it does nothing.
pub proof fn lemma_cursor_moved(s: Controls)
    ensures
        ({
            let (t, a) = next(s, Event::CursorMoved);
            &&& t.dragging == s.left_mouse
            &&& t.mouse_known
            &&& t.wallpaper == s.wallpaper && t.ctrl_key == s.ctrl_key
            &&& t.left_mouse == s.left_mouse && t.right_mouse == s.right_mouse
            &&& t.color == s.color
            &&& (a == Action::Drag <==> s.left_mouse && s.dragging)
            &&& (a == Action::Drag || a == Action::Nothing)
        }),
{
}

/// With the left button held, every cursor move after the first drags: of two
/// moves in a row, the second always drags.
pub proof fn lemma_held_moves_drag(s: Controls)
    requires
        s.left_mouse,
    ensures
        next(next(s, Event::CursorMoved).0, Event::CursorMoved).1 == Action::Drag,
        next(next(s, Event::CursorMoved).0, Event::CursorMoved).0.dragging,
{
}

/// Letting go of a key changes nothing and does nothing.
pub proof fn lemma_key_release(s: Controls, key: Key)
    ensures
        next(s, Event::KeyboardInput { key, pressed: false }) == (s, Action::Nothing),
{
}

/// Pressing a key changes no state. Up raises the limit by one, or by ten with
/// control held; Down lowers it by as much; R resets; Escape and Q exit
/// unless the viewer is a wallpaper; any other key does nothing.
pub proof fn lemma_key_press(s: Controls, key: Key)
    ensures
        next(s, Event::KeyboardInput { key, pressed: true }).0 == s,
        next(s, Event::KeyboardInput { key, pressed: true }).1 == (match key {
            Key::Up => Action::ChangePrecision(if s.ctrl_key { 10 } else { 1 }),
            Key::Down => Action::ChangePrecision(if s.ctrl_key { -10i32 } else { -1i32 }),
            Key::R => Action::Reset,
            Key::Escape | Key::Q => if s.wallpaper { Action::Nothing } else { Action::Exit },
            Key::Other => Action::Nothing,
        }),
{
}

/// Only a pressed R key or a pressed middle button resets, and neither changes
/// any state.
pub proof fn lemma_reset_only_on_r_or_middle(s: Controls, e: Event)
    ensures
        next(s, e).1 == Action::Reset <==> (e == Event::KeyboardInput { key: Key::R, pressed: true }
            || e == Event::MouseInput { button: MouseButton::Middle, pressed: true }),
        next(s, e).1 == Action::Reset ==> next(s, e).0 == s,
{
}

/// Mouse buttons: a button other than left, right and middle changes nothing
/// and does nothing; the middle button resets when pressed and does nothing
/// when let go; the right button only records whether it is down; the left
/// button records whether it is down and, pressed while the right button is
/// down, moves to the next of the eight colours.
pub proof fn lemma_mouse_buttons(s: Controls, pressed: bool)
    ensures
        next(s, Event::MouseInput { button: MouseButton::Other, pressed }) == (s, Action::Nothing),
        next(s, Event::MouseInput { button: MouseButton::Middle, pressed }) == (s, if pressed {
            Action::Reset
        } else {
            Action::Nothing
        }),
        next(s, Event::MouseInput { button: MouseButton::Right, pressed }) == (Controls {
            right_mouse: pressed,
            ..s
        }, Action::Nothing),
        pressed && s.right_mouse ==> next(
            s,
            Event::MouseInput { button: MouseButton::Left, pressed },
        ) == (Controls { left_mouse: true, color: ((s.color + 1) % 8) as usize, ..s },
        Action::SetColor(((s.color + 1) % 8) as usize)),
        !(pressed && s.right_mouse) ==> next(
            s,
            Event::MouseInput { button: MouseButton::Left, pressed },
        ) == (Controls { left_mouse: pressed, ..s }, Action::Nothing),
{
}

/// The wheel changes no state. With the right button down it changes the limit
/// by its steps, ten times as much with control held; otherwise, once the
/// cursor's position is known, it zooms, three times as fast with control
/// held; before that it does nothing.
pub proof fn lemma_wheel(s: Controls, steps: i32)
    requires
        fits_i32(s, (Event::MouseWheel { steps })),
    ensures
        ({
            let (t, a) = next(s, Event::MouseWheel { steps });
            let zoom = Action::Zoom { multiplier: if s.ctrl_key { 3 } else { 1 } };
            &&& t == s
            &&& s.right_mouse ==> (a matches Action::ChangePrecision(d) && d == steps * (if s.ctrl_key {
                10int
            } else {
                1int
            }))
            &&& !s.right_mouse && s.mouse_known ==> a == zoom
            &&& !s.right_mouse && !s.mouse_known ==> a == Action::Nothing
        }),
{
}

/// The remaining events: a new size asks for a resize to it; a modifier change
/// records whether control is held; a due frame asks to render and, once all
/// events are handled, a redraw is requested; a frame's outcome asks to
/// configure a lost surface again, to exit when out of memory and to report
/// other failures; closing exits unless the viewer is a wallpaper; anything
/// else does nothing. Only the modifier change alters the state.
pub proof fn lemma_other_events(s: Controls, size: Vec2U32, ctrl: bool)
    ensures
        ({
            let exit = if s.wallpaper { Action::Nothing } else { Action::Exit };
            let with_ctrl = Controls { ctrl_key: ctrl, ..s };
            &&& next(s, Event::Resized(size)) == (s, Action::Resize(size))
            &&& next(s, Event::ScaleFactorChanged(size)) == (s, Action::Resize(size))
            &&& next(s, Event::ModifiersChanged { ctrl }) == (with_ctrl, Action::Nothing)
            &&& next(s, Event::RedrawRequested) == (s, Action::Render)
            &&& next(s, Event::MainEventsCleared) == (s, Action::RequestRedraw)
            &&& next(s, Event::Rendered(RenderOutcome::Presented)) == (s, Action::Nothing)
            &&& next(s, Event::Rendered(RenderOutcome::Lost)) == (s, Action::Reconfigure)
            &&& next(s, Event::Rendered(RenderOutcome::OutOfMemory)) == (s, Action::Exit)
            &&& next(s, Event::Rendered(RenderOutcome::Failed)) == (s, Action::ReportError)
            &&& next(s, Event::CloseRequested) == (s, exit)
            &&& next(s, Event::Other) == (s, Action::Nothing)
        }),
{
}

/// The view is dragged only on a cursor move, with the left button held and
/// a previous cursor position kept from a move with the button held.
pub proof fn lemma_drag_needs_left_button(s: Controls, e: Event)
    ensures
        next(s, e).1 == Action::Drag ==> e == Event::CursorMoved && s.left_mouse && s.dragging,
{
}

/// Pressing Up and then Down, with the same modifiers, gives back the
/// iteration limit one started from.
pub proof fn lemma_up_then_down(s: Controls, max_iterations: int)
    requires
        max_iterations >= 0,
    ensures
        ({
            let (s1, up) = next(s, Event::KeyboardInput { key: Key::Up, pressed: true });
            let (s2, down) = next(s1, Event::KeyboardInput { key: Key::Down, pressed: true });
            &&& s2 == s
            &&& up matches Action::ChangePrecision(a)
            &&& down matches Action::ChangePrecision(b)
            &&& precision_after(precision_after(max_iterations, a as int), b as int) == max_iterations
        }),
{
    lemma_change_precision_undone(max_iterations, key_step(s.ctrl_key) as int);
}

} // verus!
