# adk_runtime

Four parts of an agent runtime, written in Verus:

- `cache`: keys, lifecycle and metrics of provider-side context caches. A cache is reused only
  for byte-equivalent material on the same model and agent, at most sixteen are held, and every
  name that leaves is reported so that it can be deleted.
- `opencode_go`: the configuration of OpenCode Go models and the published endpoint table.
- `sandbox_runner`: the lifecycle of a sandboxed agent run as a state machine. A session that was
  provisioned is stopped exactly once, whatever happens.
- `setup`: locating the `monty` worker binary, as a state machine that asks the host and ends with
  a usable path or with instructions.

`src/` is the verified library, with its laws as public proof functions named `law_*`. `tests/`
runs it on concrete values. `app/` is ordinary Rust around it: the file system, the environment,
floating-point percentages and the asynchronous services of a sandboxed run.
