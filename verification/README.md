# vectis

Scaffolding, verification and validation for Crux projects, written in
Verus. The library in `src/` holds the tool's decisions, each with a contract
that Verus proves; `app/` is the command-line program around it
(argument parsing, files, processes, HTTP, the TOML pins file and the
JSON of responses). Where work
alternates with decisions (running build steps, asking registries),
`app/` performs what a plan from `src/` lists and hands the outcomes
back.

## Layout

- `src/text.rs`, `src/paths.rs`, `src/json.rs`: strings, path joining
  and a JSON document model, with their meanings as spec functions.
- `src/templates.rs`, `src/registry.rs`, `src/scaffolding.rs`: template
  rendering (capability regions and placeholders), the template
  registries, and the atomic plans of the core, iOS and Android scaffolds.
- `src/init.rs`, `src/add_shell.rs`, `src/android_setup.rs`: argument
  parsing for `init`, the `app.rs` capability scan for `add-shell`, and
  the NDK / SDK / JDK decisions of an Android shell.
- `src/prerequisites.rs`: the tool registry and the verdict on each probe.
- `src/verify.rs`: the build pipelines as plans of commands, the verdict
  on each step, and the verify report.
- `src/versions.rs`, `src/query.rs`, `src/update_versions.rs`,
  `src/matrix.rs`: version pins, the plan of registry questions and the
  verdict on each answer, the proposed pins and the capability matrix.
- `src/engine/`, `src/validate.rs`: the artifact validators (tokens,
  assets, layout, composition, all), artifact discovery, reading an
  artifact's YAML and a schema's JSON into the document model (the
  `serde_saphyr` and `serde_json` parsers behind trusted calls), and the
  JSON Schema stage (the `jsonschema` crate behind one trusted call).
- `src/error.rs`: the error type and its JSON payload.
- `src/reports.rs`, `src/summary.rs`: the JSON reports and their
  human-readable summaries.

The public proof functions named `law_*` state properties that hold
across calls (round trips, what a report's exit status depends on, how
changes and unchanged pins partition the keys).
