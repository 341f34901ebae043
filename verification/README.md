# lychee

A simple image viewer. `src/` is the verified core, `app/` the window
around it.

- `src/img.rs`: which paths name images and hidden files, and the list of
  images to show for the command line (a directory's visible images in
  byte order).
- `src/cli.rs`: the command line `lychee [-f|--fullscreen] [--slideshow SECONDS] PATH...`.
- `src/keybindings.rs`: the keyboard bindings.
- `src/app.rs`: the viewer's state machine: position, rotation and flips,
  slideshow, view lock, and the planned work on the cache of decoded images.
  The host drains that work with `App::advance` and `App::finish_load`.
- `src/cache.rs`: the cache as a list of entries with distinct keys.
- `src/decode.rs`: decoding a file's bytes with `image`, by the format its
  extension names, then turning and mirroring the result.
- `src/orient.rs`: turning and mirroring decoded RGBA images.
- `src/framebuffer.rs`: packing pixels as 0xAARRGGBB and centring an image
  in a frame, for the plain framebuffer viewer.
- `src/laws.rs`: properties that span several commands or calls.
- `app/`: the `iced` window, reading files, the floating-point zoom and
  pan, the canvas, and the `minifb` framebuffer viewer (run when the
  program is started under the name `lychee-fb`).
