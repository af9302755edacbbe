# gitai

Building blocks of an AI-assisted Git tool, written in Verus: the decisions
are executable Rust whose behaviour is stated in `requires`/`ensures` and
proved.

- `src/` — the library, verified:
  - `mcp/` — the service registry (registration, dependency checks, startup
    order, cycle detection), the manager of running services, settings maps,
    errors, protocol helpers and the services that sit behind the tool calls
    (with the Mermaid and ASCII renderings of dependency graphs);
  - `review/` — what a review works on (including the changed code of a
    diff grouped by language), its prompt, score and cache key, and which
    cached reviews are kept;
  - `scan.rs` — how OpenGrep is run and how its results become findings;
  - `project_insights.rs` — structural findings: violations, breaking
    changes, API surface, hotspots, and the inheritance cycles reachable
    from each class;
  - `prompts.rs`, `prompt_engine.rs` — prompt templates, where they are
    looked for and how they are filled in;
  - `key_sort.rs` — a stable sort of entries by two texts, with the proof
    that its order is the only one;
  - `text.rs` — the string operations the rest is stated over.
- `app/` — the command line around it: Git and OpenGrep processes, files,
  JSON, TOML settings and logging.
- `tests/` — tests of the library on concrete values.
