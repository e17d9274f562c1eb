# hijessy

A lightweight screenshot tool: a global hotkey freezes the screen, the user picks a
window or drags a region, annotates it (rectangles, ellipses, arrows, text, numbers,
mosaic) and confirms, which copies the image to the clipboard, or saves it as PNG or JPEG.

## Layout

- `src/` is the library, verified with Verus:
  - `raster.rs`: the RGBA pixel buffer of the `image` crate, with the contracts of the
    buffer methods the library calls;
  - `capture/`: screen rectangles, capture frames, choosing a monitor or a window
    from what the platform reports, and stitching scrolled frames into one long image;
  - `editor/`: the mosaic annotation and the undo/redo history of annotations;
  - `overlay/`: tools, window rectangles in image coordinates, stamped numbers, the
    outcome of a session and the cut of the screenshot to the selection;
  - `hotkey/`, `config/`, `settings.rs`, `tray.rs`, `fonts.rs`, `output/`, `app.rs`:
    hotkey parsing and dispatch, configuration, the settings panel state, the tray
    icon, font candidates, file names and encodings, and the decisions of the
    application loop.
- `tests/` runs the library on concrete inputs.
- `app/` is the program around it: the egui user interface, screen capture, the
  clipboard, files, the tray icon and the event loop.
