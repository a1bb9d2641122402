# yeehaw

The logic of a framework for text based applications, verified with Verus: styled
characters and their grids, colors, ANSI escape sequences, the drawing cache, and the
decisions of the widgets (borders, buttons, checkboxes, toggles, dropdown lists, menus,
tabs, stacks, tables, windows, scrollable panes).

Layout:

- `src/` is the verified library. Each widget is modelled by a plain struct of the values it
  decides on; its event handling is a function from that state and an event to the next state
  and what the caller has to do (run an action, pass the event on), with a contract that states
  the step exactly.
  - `ch`, `ansi`, `text_style`: styled characters and grids, and the layout of ANSI text.
  - `color`, `color_names`, `color_store`, `gradient`: colors, named colors, the store of
    patterns and gradients, and gradient stops.
  - `draw_cache`, `element`, `z_order`, `draw_region`, `geom`: what an element draws and what
    changed since the last drawing.
  - `border`, `button`, `press`, `toggle`, `dropdown`, `menu`, `tabs`, `stack`, `table`,
    `window`, `view`, `shadow`, `selectable`, `debug`, `term_mouse`: the widgets, and the
    mouse reports sent to a terminal running in an element.
- `tests/` runs the library on concrete values.
- `app/` is ordinary Rust around the library: the process-wide debugger and its log file,
  floating point colors and sizes, conversions from crossterm's colors and events, the serde
  forms of library types, and the loops that run the library's decisions (clicking buttons and
  checkboxes, a stack's resize responses, a window's close, maximize and minimize, keeping
  patterns and time gradients in the store), and the crossterm style of a styled character.
