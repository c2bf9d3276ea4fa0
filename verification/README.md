# cosmic-ext-applet-cheatsheet

A COSMIC panel applet and Super-key overlay that lists the keyboard
shortcuts COSMIC actually has configured, as a searchable cheat sheet.

The rules of the sheet are a library verified with Verus (`src/`):

- `describe`, `keys`: what a key binding shows (label, icon, section,
  command) and how its keys print.
- `shortcuts`: rows from bindings, their order, and the compact overview
  that merges arrow / workspace families and hides media keys.
- `sheet`: search, learning mode, the keyboard-reachable rows, the add form,
  the window's small state steps, and the open/close state of the sheet.
- `listing`: the list as drawn, headings and rows, with the selected row
  being the one Enter launches.
- `i18n`: language codes, locale fallback, and Fluent message lookup.
- `ipc`: the file names and decisions behind "one sheet at a time".
- `config`: custom shortcuts.
- `text`, `order`: string operations and the string order they rely on.
- `laws`: properties that span several functions, proved.

`app/` is the program around it: the COSMIC window, reading COSMIC's
shortcut config, files under `$XDG_RUNTIME_DIR` and `~/.config`, and the
process table.
