# unikraft_sandbox

A sandbox backend that runs guests inside Unikraft micro-VMs on Hyperlight. The decisions behind
it are written in Verus and proved; what touches the network, the hypervisor or Python stands
around them in ordinary Rust.

- `src/`: the verified library. `src/lib.rs` lists its modules. `src/outside.rs` holds all that is
  taken on trust of other crates and of `std`.
- `tests/`: the library from the outside, on concrete values, with the real crates behind it.
- `app/`: the async HTTP exchange, the micro-VM and the Python classes. It asks the library what
  is due, does it, and hands back what came of it. The traits in `app/core.rs` are what it needs of
  the sandbox core that embeds it.

What holds of the library as a whole is stated by the proof functions named `law_*`: which request
headers are sent, how much of a response is kept, in which order a session is set up, when the
guest boots.
