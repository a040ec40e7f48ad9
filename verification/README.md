# wrac

The build tooling of the WRAC plugin template, with its rules proved by Verus.

`src/` is the verified library:

- `planner`, `workflow`, `plan`, `report`: the task plans of `cargo xtask`
  (build, install, uninstall, validate, launch, clean), the dependency graph,
  its stable execution order, and the executor's decisions (skip after a
  failed dependency, stop on the first failure).
- `targets`, `packages`, `commands`, `metadata`, `manifest`: target
  resolution, package selection, install locations, wrapper arguments and the
  plugin manifest rules.
- `checks`, `validators`, `tooling`: the production-readiness rules and the
  interpretation of validator and CMake output.
- `logfiles`, `recentlogs`, `rtlog`: log file naming, rotation and selection,
  `.env` parsing, and the realtime log ring with its drain.
- `gui`, `lifecycle`, `notifier`, `ports`: the editor size rules, the
  editor's runtime lifecycle (generations, single-flight WebView creation),
  the GUI subscriber registry, and the negotiation of the audio port layout.
- `wracmeta`: the light reader of a plugin's `[package.metadata.wrac]` table.

`app/` is the `cargo xtask` program around it: argument parsing, Cargo
metadata, files, processes and the dynamic loading of built plugins.
