# huggr

A toolkit for small, self-contained agents: a folder with a `huggr.toml` and a
`SYSTEM.md` becomes a program that answers questions over a JSON contract and
serves the Model Context Protocol.

- `src/` is the library. It decides; it does no input or output. Every function
  states what it returns, and Verus proves it. What holds of several functions
  together stands in public proof functions whose names begin with `law_`.
  - `definition`, `models`, `runtime`, `runtime_args`, `python_config`: what an
    agent is defined to be, which models serve its tiers, and what a caller may
    set for one invocation.
  - `assemble`, `delegation`, `tools`: what a definition grants, and the tools
    that it grants: files, searches, a shell, stored traces.
  - `agent`: one ask from its question to its answer, its limits, files, notes,
    skills and cost, what asks leave in the store, and statistics over it.
  - `build`, `scaffold`: the crates and packages that are made of an agent.
  - `mcp_serve`, `python_bridge`, `wasm`, `cli`: the surfaces.
  - `text`, `split`, `number`, `bytes`, `paths`, `order`, `sorting`, `table`,
    `json`, `schema`, `dates`, `names`: what the rest is written with.
- `app/` is the `huggr` command: it reads and writes files, runs programs, and
  hands the library plain values. The engine that runs the turns of a
  conversation is linked from outside; `ask` and `coding` drive it by traits.
- `tests/` runs the library on concrete values.

A host tells the library what it has seen of its file system as a `Disk` and of
its environment as an `Environment`. Contracts about files hold of that picture.

Results of the `regex`, `globset`, `base64`, `toml` and `serde_json` crates go by
names in contracts; the doc comment of each wrapper says what is taken from the
crate without proof.
