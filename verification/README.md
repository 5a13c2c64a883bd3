# etherust

A trainer for wiring an eight-wire network cable: the player drags the
wires into the pins of a connector in T568A or T568B order, checks, and
collects points.

- `src/` is the game logic, verified with Verus: grabbing and dragging
  cables (`cables`), buttons (`buttons`), settings sliders (`sliders`),
  timed messages (`texts`), dealing a round (`setup`), the game state and
  its events (`state`), and the laws that hold across them (`laws`).
- `app/` is the window: it loads the pictures, measures the mouse against
  the rectangles (floating point), hands the library plain values and draws
  what it returns. It expects the pictures and the font in `resources/`.
