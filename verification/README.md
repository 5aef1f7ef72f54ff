# depos

A package registry for C and C++ builds, with its logic verified in Verus.

- `src/` is the library: DepoFile and manifest parsing, dependency resolution, build
  command synthesis, archive and export checks, CMake rendering, and the records kept in
  the store. Every function states in its contract what it returns, and which error it
  gives on which input.
- The modules whose names end in `_laws` state what holds across functions: build order,
  confinement of paths, how far embedded DepoFiles are searched for, when a package is
  rebuilt, what a record gives back.
- `app/` is the program around it: the command line, files, processes and downloads. It
  reads what the library asks for, and carries out what the library decides.
- `tests/` runs the library on concrete values.
