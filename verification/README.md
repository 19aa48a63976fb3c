# Augustus

Augustus is a grand-strategy game set in the Roman world. This repository holds its
rules as a library verified with Verus, and the Bevy application that runs them.

## Layout

- `src/` — the verified library: screens and their transitions, the loading
  slideshow, the order in which the map's assets are prepared, the campaign clock,
  edicts and class happiness, famine, province ownership and trade, land borders
  derived from the atlas outlines, the choice of well-separated starting provinces,
  the start of a practice game, notices and warnings, audio modes, lobby codes, decoding
  packaged pictures and scaling city pictures with premultiplied alpha, and the
  production and terrain tables. Every public function states its behaviour in `requires`/`ensures`, and the
  laws that tie several functions together are public proof functions.
- `tests/` — executable tests of the library on concrete values.
- `app/` — the game itself: Bevy systems, egui drawing, audio, file loading and the
  fractional population economy, all calling into the library.

## Checking

The library is checked with Verus; the tests run with `cargo test`.
