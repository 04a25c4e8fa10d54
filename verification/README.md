# jj-ryu native stacks

The native GitHub stacks support of `ryu`: registering submitted pull requests
as a native stack, merging stacked pull requests bottom-up, removing a stack,
and dropping merged layers during sync.

- `src/` is the library, verified with Verus. Every decision lives there with
  its contract: the registration planner (`stack_register.rs`) and the
  registration run with its retries, merge planning (`merge.rs`), reading the
  Stacks API's answers (`stacks.rs`), merged-layer detection and cleanup
  (`sync_merged.rs`), unstacking (`unstack.rs`), the stack view's helpers
  (`analyze.rs`), and the local bookkeeping (`tracking.rs`).
- Where the work alternates with network or repository operations, the library
  exposes a state machine: it names the next operation, and the caller reports
  the answer back.
- `app/` is the command-line program around it: the async platform trait, the
  GitHub HTTP client, the loops that perform what the library asks, and the
  terminal output.
- `tests/` exercises the library on concrete scenarios.
