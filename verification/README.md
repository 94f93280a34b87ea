# lattice-placement

Placement of actors, shards and singletons over the nodes of a cluster.

- `src/` holds what is decided: who owns what, when ownership moves, what a coordinator makes of
  the commands of its members, and where a call goes. Verus proves the contract of each function
  there, but for the few that call other crates or read the clock (see below).
- `app/` holds what runs: tasks, timers, stores and peers around those decisions.
- `tests/` runs the library on concrete values.

## Where to look

| Module | Subject |
| --- | --- |
| `ownership` | the local snapshot of ownership: resynchronisation, watch, admission |
| `epoch_floor` | proofs that an epoch never goes back |
| `plan` | rebalance plans and their moves |
| `region` | shards of entities, their homes, and messages that wait for one |
| `routing` | route tables, caches and resolvers |
| `runtime` | the leader of a placement domain, and the host that runs leaders |
| `sorted`, `keymap`, `order` | the collections and orders that the rest is built on |

Laws that relate several functions are public proof functions whose names begin with `law_`.

Calls into other crates go through a few small functions whose contracts are believed: hashes in
`hashing`, payloads in `region`, and the concurrent map of the route cache in `routing::cache`.
Nothing is claimed of what the clock reads; the functions that go by it have forms that take the
time.
