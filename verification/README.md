# bundlrs

A verified library for the bundlrs paste service, checked with Verus.

- `src/text.rs`: `replace_all` and `replace_first_n`, proved against
  specifications of `str::replace` and `str::replacen`.
- `src/markdown.rs`: the board-markdown extensions: `e#...#` directives,
  `ssm#...#` style blocks, `c#colour#text#` and `%colour% text %%` spans.
- `src/regexes.rs`: the regular-expression searches, done by the `regex` crate
  behind trusted wrappers whose results are named, not restated.
- `src/boards.rs`: who may see, post in, manage and delete in a board, what a
  board page request is answered, page links, heads and the About section.
- `src/cli.rs`: what the command-line client prints and how it ends.
- `app/`: the command-line client (`orbiter token`, `orbiter view`) and its
  `.orbiter.toml` settings.

Not part of this library, and taken as inputs instead:

- the markdown-to-HTML renderer: the extension passes act on the text as given;
- the grammar that parses extension blocks: callers pass the parsed blocks
  (`Vec<Block>`), which must be the parse of the text they pass;
- the compiler of style programs: callers pass it as `compile`;
- the board and user store and the page templates: the page decisions take
  the store's answers as plain values.
