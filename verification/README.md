# reposeiri

A verified library for inspecting a repository from bounded local
evidence: its entry points, its Markdown documents, its GitHub
configuration and its local Git layout. Every function in `src/` carries a
`requires` / `ensures` contract that Verus proves.

## Layout

- `src/markdown/`: the Markdown scan (events, headings, links, routes),
  the README summary, the document session budgets and the route map.
- `src/github/`: GitHub configuration files — document kinds, the YAML
  line reader, Dependabot, Renovate (JSON), issue forms, workflows and
  CODEOWNERS, and the dispatch from a file's bytes to its parse outcome.
- `src/patterns/`: the pattern registry, predicate programs and pattern
  packs with their executable overlay.
- `src/profiles/`: repository profiles, their scoring and reports.
- `src/planner/`: the patch-plan decisions.
- `src/gitlocal/`, `src/fs/`, `src/remote/`: local Git observation
  steps, workspace manifests (Cargo, npm, pyproject, `go.work`) and the
  scope graph, path containment and the directory walk, and the remote
  metadata request and its report.
- `src/report/`: the holdout report, the registry as published, and the
  wording lint.
- `app/`: the command-line program around the library (file system,
  process arguments, output).
- `tests/`: tests of the library on concrete values.

Calls into `pulldown-cmark`, `serde_json`, `toml` and `std` that the library
cannot verify stand behind small trusted functions whose doc comments say
what their contracts assume.
