# assist

The logic of a game assist, verified with Verus.

- `src/` is the library: it decides when a potion, a buff, a spell, a macro or a timer
  is due, reads structures of the client's memory out of bytes, builds the code and the
  patches that go into the client, and lays out notifications. Every function states
  what it gives; laws that span several functions are public proof functions.
- `app/` is the Windows program around it: it reads and writes the client's memory, runs
  the threads, draws the overlay and the log window, and keeps profiles on disk. What the
  surrounding launcher provides is the trait `Launcher`.
- `tests/` runs the library on concrete values.
