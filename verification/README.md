# mandelbrot

A GPU Mandelbrot set viewer. The set is drawn by a WGSL shader with 32-bit
floats; everything the viewer decides with integers and booleans is a
Verus-verified library:

- `src/vec2.rs`: the pixel-size pair `Vec2U32`.
- `src/params.rs`: the surface size and the iteration limit (`Params`):
  resizing, changing and resetting the precision, the points drawn per frame.
- `src/screen.rs`: the area that all monitors span, used to size the
  wallpaper window (`total_screen`), with the check that its `i32`
  arithmetic cannot overflow (`edges_fit`).
- `src/controls.rs`: the input state machine (`Controls::step`): from the
  state and an input event to the next state and the action to take.

`app/` is the program around it: window and event loop (winit, Xlib), the
GPU pipeline (wgpu, bytemuck), and the floating-point offset, zoom and
colours.

Controls: drag to move; scroll to zoom (faster with control); up/down or
scroll with the right button held to change precision (faster with control);
left click with the right button held to change colour; `r` or middle click
to reset; `q` or escape to exit.
