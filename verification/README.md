# randomness

Randomness for an epoch of a network of validators: a distributed key generation whose outcome is
a key that a threshold of them can sign with, and the numbering of the rounds in which they do.

`src/` is a library verified with Verus.

- `types`: plain values that pass between the manager and the node.
- `once`, `rows`: a cell that is written once; maps that are keyed by party.
- `dkg`: the protocol of `fastcrypto_tbls`, as the manager sees it. What is believed rather than
  proved is in this module, and says so.
- `setup`: the committee, the reduction of weights, and the party made from them.
- `store`: the tables of an epoch, batches of writes to them, and the rows read back.
- `state`: the state of the manager, and how each call moves it.
- `checks`, `inner`, `manager`: the code, with its contracts.
- `laws`: what holds across calls, from what is settled for good to what a restart brings back.

The library does no I/O. A call that needs something submitted or removed returns an action, and
the node reports the outcome with a second call. `app/` is such a node's side of it.
