# Incline Design

The decision logic of a mine-design workbench, written and proved in Verus.

The library holds the state of the workbench (`state::App`) and the commands
that change it: drawing tools, layers, surfaces, block models, drillholes, tie-in
of blasts, survey systems, files, background jobs, and the way out of the
program. Each command states in its contract what the state is afterwards.

What the machine does is not in the library. A command leaves a request in the
state (`files.requests`, `files.dialogs`, `jobs`, `steps`, the flags of `frame`),
and what came of it is handed back as an argument. Numbers with a fraction are
carried as their bits; `ieee` compares them. The hashes by which unsaved work is
told are measured outside, after every command that changed a document.

- `src/` is the library. Modules at the top hold types and what several commands
  share; `commands/` the menus and panels; `drawing/` the tools of the canvas.
- `tests/` runs it on concrete values.
- `app/` is a workbench without a window: configuration, files, worker threads,
  and the geometry that needs floating point.
