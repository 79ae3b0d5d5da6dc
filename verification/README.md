# recol_interactive

The decisions of an interactive terminal picker for colour themes, verified with Verus.

- `state` holds the picker and moves its selection; `keys` says which key stands for
  which command; `session` says what follows from an event or an answer.
- `list` and `search` choose, order and combine themes; `favourites` reads and writes
  the favourites file.
- `preview` makes the preview of a theme and `screen` everything that the terminal is
  told to show, as a list of orders.
- `text` and `theme` are what the others are made of.

The library does no input or output. `app/` runs it on a real terminal: it reads keys
and carries out the orders through crossterm, takes the themes from recol_lib, and reads
and writes the files. It does what each `Effect` asks for and hands the answer back.

Themes are known to the library by name, lightness and rank, their place when all themes
are sorted; colour adjustments are opaque to it.
