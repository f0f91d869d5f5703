# tiny_sdl2_gui

An immediate-mode GUI toolkit on top of SDL2, whose decision logic is
verified with Verus.

- `src/` is the verified library: input events and their consumption, focus
  handling and the tab order, the state machines of pressable widgets
  (checkbox, button) and of the single line text input, the scroller's wheel
  and drag handling, rectangle and clipping geometry, the outlines that the
  default looks draw, the cache plan of software rendered backgrounds, a
  delayed dropper, and the deterministic shuffle used by the layouts. The
  contracts are stated over spec functions of plain values; the laws that
  span functions are public proof functions named `lemma_*`. Where a widget
  calls code it was handed (sounds, its functionality, the text it edits),
  the calls go through a recording adapter (`PressEffects`, `TextEffects`),
  and the contract states which calls are made, in which order, with what
  arguments, what follows from each outcome, and that an error returned is
  the one the last call made returned; what those calls do is not
  stated. Of the clock, only that it is read once per queued value.
- `app/` holds what Verus does not take: the SDL2 widgets and their drawing,
  fonts and sounds, and all sizing and layout, which is floating point. It
  converts SDL2 values to the library's plain values and calls the library
  for every decision.
- `tests/` runs the library on concrete values.
