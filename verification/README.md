# orbital

The window manager and compositor of the Orbital display server, as a
library verified with Verus, and the program around it.

## Layout

- `src/` is the library; Verus verifies all of it.
  - `rect.rs`: rectangles and their laws (intersection, container, offset).
  - `color.rs`, `config.rs`: packed colours and the configuration.
  - `image.rs`: images, regions of interest, blending and copying pixels,
    scaling by whole numbers.
  - `event.rs`: the events of the wire format, and how input is told apart.
  - `window_order.rs`: the focus order and the drawing order by layer.
  - `tile.rs`: the tiling types.
  - `window.rs`: a window, its geometry, flags, pixels and event queue.
  - `decoration.rs`: drawing the title bar.
  - `compositor.rs`: screens, pending redraws and the cursor.
  - `protocol.rs`: the paths clients open and the requests they write.
  - `scheme.rs`: the server: windows, focus, pointer, keyboard, drags,
    tiling, clipboard; every operation as a function of a `SchemeView`.
  - `command.rs`: a client request carried out on the server.
  - `handles.rs`: the files clients open on the scheme and what each
    request on them does.
  - `background.rs`: names and bytes of cached scaled backgrounds.
  - `laws.rs`: properties that span operations.

Coordinates are `i32`. The server keeps windows, the pointer and pending
redraws inside bounds chosen so that the sums it forms (a place plus a size,
a pointer minus a drag offset, the container of two redraw rectangles) fit in
`i32`, and a window's pixel count fits in `i32`; requests beyond them are
refused as invalid and input beyond them is dropped.
- `tests/` runs the library on concrete values.
- `app/` is the program: configuration file, displays, input, the scheme
  socket and the event loop.
