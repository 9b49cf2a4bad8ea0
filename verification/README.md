# blitz_integration

The verified core of an integration layer between the Blitz HTML renderer, a
Wayland compositor, an ECS world and an egui surface.

`src/` holds the logic, with contracts proved by Verus:

- `routing`, `string_map`, `text`: route patterns, parameter extraction,
  route resolution, sitemap XML.
- `static_site`: page file names, template filling, the HTML page around a
  body.
- `ids`, `texture`, `format`, `resources`, `durations`: identifiers, textures,
  pixel-format conversion rules, the texture cache and its cleanup.
- `coordinates`, `surfaces`, `wayland_surfaces`: transforms, layer-shell
  order, subsurface trees, damage, the final drawing order.
- `keys`, `events`: key codes, pointer buttons and modifiers, egui input,
  focus and event dispatch.
- `gles_surfaces`, `terminals`, `image`, `quads`, `render_setup`: the GLES
  surface table, terminal bookkeeping, the off-screen RGBA gradient, quad
  index buffers, the GL configuration choice and when a paint source
  makes its texture anew.
- `performance`, `change_detection`: timing and memory statistics with
  advice, and noticing ECS changes by tick.

`app/` holds what Verus does not see: files and processes, clocks and
randomness, floating-point geometry, and the serde, thiserror and
keyboard-types views of the library's types.

`tests/` exercises the library on concrete values.
