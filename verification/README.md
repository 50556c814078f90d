# matrix-runner

A configuration-driven test runner for Rust projects: it runs a crate's tests
across a matrix of feature flags, in parallel, with retries, timeouts,
platform-specific allowed failures, architecture filtering, runners that share
a matrix in CI, console and HTML reports, and messages in English or Chinese.

## Layout

- `src/` — the library, verified with Verus: planning a run (which cases run
  on this machine and runner, in which order), the retry and timeout rules,
  preparing custom commands and Cargo's arguments, reading Cargo's JSON
  messages, the results of each step, the reports, translations, and the
  decisions of the `run` and `init` commands. Each public function states its
  result in its `ensures`; the laws that relate several functions are public
  proof functions (`law_*`).
- `app/` — the `matrix-runner` program: command-line parsing, file and process
  I/O, the asynchronous scheduling of cases, printing, and the serializable
  copies of the configuration types.
- `tests/` — tests of the library on concrete values.

## Usage

```bash
matrix-runner init            # write a TestMatrix.toml
matrix-runner run [OPTIONS]   # run the matrix
```

Options of `run`: `-c/--config`, `-j/--jobs`, `-p/--project-dir`, `--html`,
`--total-runners` and `--runner-index`; `--lang` selects the language of the
messages.
