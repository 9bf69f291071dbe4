# pack

A terminal front end for pacman (and yay, for the AUR) whose logic is
verified with Verus.

- `src/` is the verified library: the package sources and actions, the
  commands they run and how their output becomes package lists, the package
  cache file format, fuzzy search and its ranking, the editing of the search
  query, the state machine of the screens, the command-line routes and the
  texts and layout of what is drawn. Work that needs the system (the cache
  file, running commands) is asked for by small state machines and handed
  back by the caller.
- `app/` is the program around it: the environment, the file system, the
  commands, the terminal (crossterm) and the drawing (ratatui).
- `tests/` runs the library on concrete values.
