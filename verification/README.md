# gitops_bootstrap

A terminal wizard that bootstraps a GitOps repository from a directory of Kustomize
templates, and optionally pushes it and bootstraps Flux CD. The decisions of the program
live in a library verified with Verus; a thin program around it talks to the terminal, the
file system and the other programs (`git`, `helm`, `flux`, `kubectl`, the editor).

## Layout

- `src/` — the verified library.
  - `app.rs`: the program's state machine. `App::handle_event` takes a key and returns the
    work to do outside (`Effect`); the `*_step` spec functions state every transition.
  - `home.rs`, `wizard.rs`, `explorer.rs`, `actions.rs`, `summary.rs`, `executing.rs`: the
    screens and how keys change them; `screens.rs` and `overview.rs`: what they show.
  - `listing.rs`, `tree.rs`: the component tree built from a directory listing.
  - `generate.rs`: the files written for a cluster, as a list of file-system steps.
  - `bootstrap.rs`: the `git` and `flux` commands run after generation.
  - `git.rs`: where the templates are cached and how they are fetched.
  - `yaml.rs`, `helm.rs`: YAML values, the diff of edited Helm values, the `helm` call.
  - `config.rs`, `paths.rs`, `text.rs`, `collections.rs`, `keys.rs`, `input.rs`,
    `selection.rs`: settings, Unix paths, text functions, ordered sets and maps, keys and
    text fields.
- `tests/` — tests of the library on concrete values.
- `app/` — the terminal program: drawing with ratatui, reading keys with crossterm, the
  settings file with serde, YAML text with serde_yaml, files and processes.
