# multipush

Declarative repository governance: YAML policies describe what every repository of an
organization must look like (files, keys, settings, branch protection, autolinks); `check`
reports compliance and `apply` opens or updates one pull request per failing repository and
policy, or patches settings, branch protection and autolinks directly.

## Layout

- `src/` — the library, verified with Verus. Every decision the tool makes lives here with
  its contract: configuration merging, recipe expansion, environment references, validation,
  repository targeting, the rules' judgements, the apply plan and PR bookkeeping, and the
  table, Markdown and SARIF renderings.
  - `config`, `json`, `loader`, `recipe` — the configuration model, layered merging,
    `${VAR}` references, recipes and validation.
  - `engine` — targeting (`targeting`), result aggregation (`evaluator`), the settings and
    branch-protection plan (`plan`) and the PR decisions of `apply` (`executor`).
  - `rules` — one module per rule type; each judges what the provider fetched.
  - `formatter`, `formatters` — report rendering.
  - `github`, `pattern`, `text` — platform mapping, regular expressions and string helpers.
- `app/` — the command-line program: argument parsing, files, environment, the async GitHub
  client, and the loops that hand fetched data to the library.
- `tests/` — tests of the library.
