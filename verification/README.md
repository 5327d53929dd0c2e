# ri

A small modal (vi-like) terminal text editor, with its core verified by Verus.

- `src/` is the verified library: reading keystrokes into tokens
  (`token`, `parser`, `command`), buffers with their cursor and undo
  history (`buffer`, over a `ropey::Rope` seen through `rope`), windows and
  their highlight and line-number caches (`window`, `highlight`), the screen
  layout and the tree of split windows (`ui`, `layout`, `layout_tree`), the
  editor state and how each token changes it (`app`), and the framing of
  language-server messages (`rls`).
- `app/` is the program around it: the terminal, the key loop, drawing,
  files, the clipboard, logging and the language-server process. After each
  token the library answers with effects (draw, save, open a split, fetch
  the clipboard) that the program carries out.
- `tests/` runs the library on concrete inputs.
