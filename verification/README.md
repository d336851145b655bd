# khepri

The data model and editor logic of Khepri, a small 2D scene editor, written in
Verus with its behaviour stated in `requires` / `ensures` contracts and proved.

- `src/scene.rs`: shapes, scene objects and the scene (adding with generated
  names, selection, removal, topmost hit, the serializable scene data).
- `src/paths.rs`: the running platform's path conventions (`PathRules`), joining,
  comparing, file names and parents through `std::path` (stated exactly for Unix
  rules, named for the rest), and where a project and the user settings keep files.
- `src/recent.rs`: the list of recent projects (move to front, cap, removal).
- `src/project.rs`: the metadata of a new project.
- `src/hub.rs`: the Hub's dialogs (new project, context menu, rename) as state.
- `src/editor.rs`: unsaved changes and the "Save changes?" prompt.
- `src/text.rs`: base-ten rendering and string helpers.
- `app/`: the program: the egui windows, RON files on disk, the clock and git.
- `tests/`: tests run against the compiled library.

Object transforms are floating point in the program; the library stores them as
their bit patterns and never computes with them.
