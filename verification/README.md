# engine_launcher

The decisions that an Ethereum engine node launcher takes, written and proved in
Verus, and the program that performs them.

- `src/` is the verified library. Each module states what its functions return
  in `requires` and `ensures`, and what holds of several calls together as public
  proof functions named `law_*`.
- `app/` is the program: it opens the database, runs the EVM, talks to peers and
  hands what came back to the library. It needs the node's own crates.
- `tests/` runs the library.

Where the library calls another crate (`clap` for the command line,
`alloy-consensus` and `alloy-primitives` for the hash of a header, `alloy-chains`
for what is known of a chain), the call stands in one small function whose
contract is trusted; its comment says what is claimed.
