# COSMIC Application Board

A full-screen application launcher for the COSMIC desktop: a Launchpad of
named pages on which applications keep the slots the user drags them to,
an "Other Apps" section, search by name and category, groups, and board
settings.

The decisions of the board are a library verified with Verus; the program
around it does the window system, file and process work.

## Layout

- `src/` is the verified library.
  - `layout.rs`: slot layouts with intentional gaps, and what dropping,
    clearing and trimming do to them.
  - `app_group.rs`: the configuration — groups and their filters, Launchpad
    pages, hidden applications and board settings — and its operations.
  - `board.rs`: the responsive grid, where each tile shows, the search, and
    what appears under Other Apps.
  - `launcher.rs`: the window's life cycle, typing, paging, group editing,
    drag and drop, and keyboard row movement.
  - `settings.rs`: the bounded steps of the board settings.
  - `catalog.rs`: the name order of installed applications and duplicate
    detection.
  - `commands.rs`: desktop action command lines, the Super key shortcut
    command, store component IDs.
  - `keys.rs`: which key presses type into the search or move the focus.
  - `tasks.rs`: the command line and requests between launches.
  - `order.rs`, `sort.rs`, `text.rs`, `ids.rs`: orders, a verified stable
    sort, text helpers and ID lists.
  - `laws.rs`: properties that span several operations.
- `tests/` runs the library on concrete values.
- `app/` is the program: the COSMIC window, the panel applet, cosmic-config
  storage, desktop files, graphics cards and the Super key shortcut.
