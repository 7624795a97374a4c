# saiga

The parsing and terminal-state core of the Saiga terminal emulator, written
in Verus: the functions in `src/` carry contracts that Verus proves. The
traits that users implement (`Handler`, `Executor`, `EventListener`) keep
a record of what they receive, so the contracts of the functions that call
them say what each implementation is told.

Layout of `src/`:

- `saiga_vte` — the DEC ANSI state table, UTF-8 helpers, and the ANSI
  processor that turns bytes into handler calls (SGR attributes, OSC colors
  and titles, synchronized updates).
- `swiftty_vte` — the byte-at-a-time parser with its parameter,
  intermediate and OSC buffers, and the text processor that decodes UTF-8
  between escape sequences.
- `swiftty_backend` — a second text processor, the UTF-8 helpers it uses,
  and the byte splitter of the experimental backend.
- `swiftty_keymaster` — key encoder state.
- `saiga_input` — keys, modifiers and the legacy key encoder.
- `saiga_backend` — cells, the grid (resizing, iteration) and cursor
  movement of the terminal.
- `saiga_frontend`, `iced_saiga` — the parts of the user interfaces that
  compute: key handling, fonts, the color theme, mouse modes.

`tests/` holds the test suite; `app/` holds a small program that reads
bytes from standard input or a shell on a pseudo-terminal and reports what
the parsers make of them.
