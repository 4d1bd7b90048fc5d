# desktop_things

Task bars for Wayland, with their decisions verified by Verus.

- `src/` is the verified library. It knows outputs, surfaces, seats and viewports
  by number, keeps the state that a bar's behaviour depends on, and turns events
  into state changes and actions. `layershell` is the bar for any compositor with
  a layer shell, `river` the one for river; `taskbar`, `tags`, `clock` and
  `battery` are what they show, and `input`, `bar_input`, `render`, `frame` and
  `text` what they work with.
- `app/` connects the library to the compositor and to the GPU. Everything that
  computes with floating-point coordinates is there too. Run it without an
  argument for the river bar, and with `layershell` for the other one.
- `extras/protocols/` describes the two river protocols that the bar speaks.
- `tests/` runs the library on concrete values.
