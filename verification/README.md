# ordo

A project orchestrator for C and C++: manifests (`Ordo.toml`), profiles,
features, workspaces, dependency providers (system, pkg-config, vcpkg,
conan, git, path, clib, NuGet, Homebrew, pacman, Nix), build graphs with an
incremental engine, tests, formatting and linting.

The logic is a Verus library under `src/`: each public function states
what it returns in its `ensures` and Verus proves it, with laws (such as
the dependency order of a workspace, the closure of enabled features and
the precedence of configuration layers) as public proof functions.
Calls into `semver`, `pubgrub`, `sha2`, `toml_edit` and `std::path` sit
behind small trusted wrappers whose contracts name what the outside code
returns.

`app/` is the command-line program around the library: argument parsing,
files, child processes and threads. `tests/` runs the library on concrete
cases.

Modules of the library:

- `manifest`, `features`, `config`, `workspace`, `dag`: the manifest model,
  profiles and their inheritance, feature resolution, layered
  configuration, workspace members and their build order.
- `resolver`: version parsing, version requirements and resolution.
- `compiler`, `build_graph`, `faber`, `build_plan`: compile and link
  commands, the build graph, out-of-date checks and the run of a build.
- `providers`: what each dependency provider is asked and what its answer
  gives a build.
- `testing`, `source_tools`, `scaffold`, `adding`, `dep_tree`, `cli`:
  the decisions of `test`, `fmt`/`lint`, `new`/`init`, `add`, `tree` and
  `update`.
- `arsenal`, `paths`, `sandbox`, `style`, `text`, `strmap`: tool
  versions, ordo's directories, the script sandbox, output styles, and
  the string and map helpers the rest is proved with.
