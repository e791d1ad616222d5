# ump

The package manager of the Umbral language: `ump init`, `ump create`,
`ump add`, `ump remove`, `ump run`, `ump update` and `ump upgrade` over a
project's `umpkg.yml`.

- `src/` is the library, verified with Verus: version texts, package
  specifications, GitHub addresses, the choice of a version among a
  repository's tags, the Umbral requirement check, the dependency table and
  the decisions of each command. Installing a library (`ump add`, `ump
  upgrade`) is a verified state machine in `src/instalacion.rs`: it says
  what to fetch, read, run or ask next, and `app/` only carries it out.
  Semantic versions are read and compared by
  the `semver` crate, through a few trusted functions in `src/version.rs`.
- `app/` is the program around it: the command line (clap), `umpkg.yml` in
  YAML (serde), the network (reqwest), the terminal, `git` and `umbral`.
- `tests/` runs the library on concrete values.
