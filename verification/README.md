# offline_protocol

The rules of an offline-first messaging protocol, verified with Verus: file
transfer in chunks, encrypted groups over a mesh and a relay, configuration,
errors and events.

- `src/` is the library. `file_transfer` splits files into chunks and puts them
  together again within bounds on memory; `group_mesh` keeps the state of groups;
  `config`, `error`, `events` and `constants` are what an application sees.
- `group_mesh` does no input or output. A function takes what the MLS layer or a
  transport answered, changes the state, and appends what is to be done to a list
  of effects. `group_mesh/laws` states what holds across functions.
- `app/` is ordinary Rust around the library: JSON forms, clocks, error messages,
  and the loop that carries out effects on a host.
- `tests/` runs the library on concrete values.
