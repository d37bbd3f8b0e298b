# todo-tui

A keyboard-driven terminal todo list: items with priorities, pins, due dates
and an append-only note log, nested categories in a sidebar, a command
palette, bulk actions and undo.

The library (`src/`) is written in Verus and verified: the list and its
categories (`data`), dates (`date`), the line editor (`input`), the command
palette (`commands`), key maps (`keys`), list layout and wrapping (`list`,
`layout`), themes and settings (`theme`, `config`), the command line (`cli`),
when unsaved changes are written (`autosave`) and the application state
machine (`app`), which turns key presses into
actions and actions into new states and effects for the caller to carry out.

The program (`app/`) is ordinary Rust around it: terminal set-up and the event
loop (crossterm), drawing (ratatui), reading and writing `todos.json` and
`config.json` (serde), and the system clipboard (arboard).
