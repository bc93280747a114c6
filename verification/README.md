# dslcad

Geometry handling of the DSLCAD modeller, verified with Verus.

- `src/` is the verified library: the rendered-model protocol, mesh welding
  and the 3MF package model, the facets of the STL form, settings storage
  and its config file format, the project window's file handling, the menu
  bar and its persisted view flags, the camera angle option and the names
  of exported files.
- `tests/` exercises the library.
- `app/` holds what needs I/O, floating point or outside traits: the command
  line exporter, the STL and 3MF writers, the settings file, the project file
  system and the camera angle numbers.
