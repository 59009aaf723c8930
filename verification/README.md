# reposcryer

A local repository intelligence engine for coding agents: it scans a repository,
extracts symbols and imports with heuristic parsers, keeps an incremental index in a
Kuzu graph database, resolves file-to-file dependencies, and answers explain,
neighbors, impact, summary and context-pack queries.

## Layout

- `src/` is the library, verified with Verus. Every public function states its
  result in `ensures` over spec functions; the laws of the library are public proof
  functions named `law_*`.
  - `text`, `paths`, `order`, `hash`, `ids`: strings, path handling, stable sorting,
    SHA-256 based identifiers.
  - `model`: the data model and its views.
  - `config`: settings, validation of a parsed configuration file, TOML rendering.
  - `ingest`: scan decisions (ignored directories, size limit, binary content,
    languages) and fingerprints.
  - `matchers`, `parser`: the per-language line matchers and parsers.
  - `graph`, `export`: the in-memory repository graph and the repo map.
  - `resolve`, `impact`, `store`, `rows`, `queries`: import resolution, reverse
    dependency walks, incremental planning, reading result rows, and the statements
    and queries the graph store runs.
  - `context`, `report`, `commands`: context packs and the text reports of the
    command line.
- `app/` is the command line: argument parsing, the file system, the Kuzu
  connection and JSON output. It calls the library for every decision.
- `tests/` holds the tests.
