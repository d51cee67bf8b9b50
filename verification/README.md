# sikaru

The verified core of the Sikaru command-line client's native compute executor and
its authoring companion, written in Verus.

- `src/` is the library. Every function in it is verified against its `requires` /
  `ensures` contract. It decides what the executor, the worker and the workflow
  controller do: the operation journal and its restart rules, task requests and
  their arguments, process bookkeeping, workspace captures and their canonical
  tree digests, the persistent channel's framing and failure handling, launcher
  responses, chat commands, and customer agent packaging.
- `src/deps.rs` and the trusted items in `src/logscan.rs` and `src/text.rs` are the
  calls into outside crates (`sha2`, `base64`, `serde_json`, `rand`,
  `percent-encoding`, `regex`) and std functions, each with the contract that its
  documentation supports.
- Laws that relate several operations are public proof functions named `law_*`.
- `tests/` exercises the library on concrete values.
- `app/` is the command line around it: argument handling, file access and JSON
  rendering for `init`, `check`, `dev --dry-run` and `doctor`.
