# ks-ui

The logic of KubeStudio's web UI and its connectors, written in Verus:
every function in `src/` carries a contract, and Verus proves that the code
meets it.

## Layout

- `src/` — the verified library (crate `ks_ui`):
  - `text`, `num`, `json`: characters, decimal numbers, JSON values and
    JSON paths.
  - `resources`, `crd`, `nodes`: the rows of the resource tables, custom
    resources and the node table with its sorting.
  - `hotkeys`, `navigation`: hotkeys, key bindings and their conflicts, and
    the keyboard reducer of the main window (state and key to new state and
    action).
  - `terminal`: the exec terminal's character grid and its escape
    sequences.
  - `chat`: the chat panel (timestamps, polling, message layout).
  - `ui`: the dialogs, log viewer, cluster overview and drill-downs.
  - `connector`: the connectors' decisions: paths, proxying, tokens,
    registration and reconnection, tool calls.
- `tests/` — tests of the library on concrete values.
- `app/` — a small command-line program around the library: reading
  Kubernetes objects and JSON, and the few computations on floating point.

Laws that span several functions stand in `src/` as public proof functions
named `lemma_*`, each with a doc comment that states it.
