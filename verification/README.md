# new_iris_terminal

A terminal for InterSystems IRIS: the part of it that can be reasoned about, as
a library whose functions carry contracts that Verus proves.

- `src/term` is the terminal itself: the grid, the escape sequences, encodings,
  colours, and what is read off the screen.
- `src/pty` is how a session is reached: what to launch, the Telnet protocol, and
  what a reader thread makes of what it reads.
- `src/features` is what is layered on top: unattended login, macros, history,
  export, transcripts, the global browser, piece documentation, updates.
- `src/plugins` decides which plugins are called and which shells are offered.
- `src/text.rs`, `src/number.rs`, `src/calendar.rs`, `src/objectscript.rs` and
  `src/clock.rs` are what the rest is written with.
- `app` is the disk, the network, the processes and the window around the
  library.

Each type with contents has a mathematical value (`...State`), and an operation's
contract says which value it leaves. What the clock or another program decides is
an argument of a function of its own (`..._when`, `..._at`, `..._after`,
`..._by`), so that everything else about it is exact. Properties of several
operations together are public proof functions, collected at the end of a module
or in a module of their own (`grid_laws`, `macros_laws`, `global_browser_laws`).
