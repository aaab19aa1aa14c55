# zver

The core of the Zver browser engine as a Verus library, with a small
command-line program around it.

## Layout

- `src/`: the verified library.
  - `text`, `strmap`: characters, strings and a string-keyed map.
  - `dom`: the document tree, its mutations and queries, HTML parsing
    (through `scraper`), serialisation, generated `::before`/`::after` nodes.
  - `css`: tokens, declarations, selector text, the cascade, `@media`,
    `@font-face` (fonts loaded through `fontdue`), colours, keyframe
    declarations, selector bookkeeping.
  - `js`: event listeners and timers.
  - `layout`: keyword styles and the shape of the layout tree (which nodes
    get a box, in which order, and how inline boxes are grouped).
  - `network`, `resource_loader`, `browser`: fetching and caching decisions,
    tabs and history, the developer-tools state.
- `tests/`: tests of the library.
- `app/`: the program: networking (`reqwest`, `tokio`), driving the
  `cssparser` tokenizer and the `selectors` matcher, and the parts that
  compute with floating-point numbers (lengths, colours, easing, media
  features).

## What the program does not do

It does not run scripts, compute box geometry or draw pages: the script
engine (`boa_engine`), the box layout engine (`taffy`) and the window and GPU
crates (`egui`, `eframe`, `wgpu`, `winit`) are not dependencies.  The library
holds the decisions those parts of a browser rely on (timers and listeners,
which nodes get boxes and in which groups); the developer tools report the
layout as not computed.
