# glasses

A HAP movie player. The verified library (`src/`) holds everything the player
decides or computes:

- `frameconv::decode` — decoding of HAP packets (plain, Snappy and chunked
  "complex" sections) into block-compressed texture data, specified byte for
  byte; Snappy itself is the `snap` crate, called through one trusted wrapper
  in `frameconv::snappy`.
- `frameconv::filetypes` — the recognised codec variants and their tags.
- `window::font`, `window::text` — the 5x7 bitmap font and the text
  rasteriser of the overlay, specified as the set of pixels each string
  lights.
- `window::overlay` — the overlay's texts and layout.
- `window::playback` — pausing, stepping, scrubbing and looping.
- `window::video` — texture formats and row pitches of each variant.

`app/` is the program around it: FFmpeg demuxing, the winit window, wgpu
rendering, and the floating-point parts (frame rate, viewport, timestamps).
