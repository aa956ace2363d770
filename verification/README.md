# LED shooter

A one-player shooter on an 8x8 RGB LED matrix driven by a DM163 colour
shield on a Pynq-Z1 board, with a light bouncing along the board's four LEDs.

- `src/` is the verified library: the game's state and its three events
  (button press, display tick, logic tick), the frame buffer, the register
  accesses that clock the frame into the DM163 driver, and the LED light.
  The game draws into the frame; each display tick refreshes one line of
  the matrix and moves the line counter on, so the lines are shown in turn.
  Each event is a spec function from state to state; the handlers are
  proved to compute it, and `src/laws.rs` proves what holds across events.
- `app/` is the program on the board: it performs the register accesses the
  library computes on the memory-mapped registers, and calls the board
  support package for interrupts and timers.
- `tests/` runs the library on concrete games and frames.
