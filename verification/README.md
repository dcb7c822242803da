# dgs

Dynamic geometry scenes: points, lines, circles, polygons, ellipses, arcs,
semicircles and expression-driven curves, described in math coordinates,
plus a small scene language whose statements become the Rust code that
builds a scene.

The library under `src/` is written in Verus and verified:

- `color`: RGBA colors parsed from names and `#rgb` / `#rrggbb` /
  `#rrggbbaa` strings.
- `objects`: the objects, their constructors and `with_*` builders, point
  references and the lookup of named points, and the resolution of a
  scene's objects for drawing (curves are sampled by functions the caller
  hands in).
- `scene`: the scene builder, render errors and the `Renderer` extension
  point.
- `draw`: what drawing the objects takes: point references looked up,
  and the objects that cannot be drawn (an unknown name, a curve not yet
  sampled) left out.
- `dsl`: the scene language. `dsl::grammar` states, as specification
  functions, what a statement list means and which code it becomes;
  `dsl::codegen` reads token trees and writes that code, proved to agree
  with the grammar. Embedded Rust expressions, patterns and statements are
  recognised by `syn`.
- `text`: character helpers (white space, trimming, comparison).

`app/` holds what stays outside the verified crate: the token-stream entry
of the scene language (`dgs`), serde forms of the objects, the default
canvas with its floating-point constants, the output format selector and
PNG rasterization of SVG text with `resvg`. No SVG writer is part of this
crate.
