# fcross

Verified state machines of the Fcross cross-chain transaction contracts
(CosmWasm), written in Verus.

Each contract keeps its storage as a plain `ContractState`; a request is a
function from the state and the block time to the next state and the
response (event attributes, IBC packets, requests the contract sends to
itself). Every such function states, in its `ensures`, the spec function
(`spec_execute`, `spec_add_vote`, ...) it implements. A refused request
leaves the state as it was (the chain reverts its writes); a packet handler
that catches its error keeps what it wrote before the error. `Outcome::Aborted`
(or `None`) marks the inputs on which the contract panics on chain.

Layout:

- `src/chain.rs`: packets and their timeout (the one call into
  `cosmwasm_std`), the order in which storage walks keys, shared helpers.
- `src/render.rs`: decimal and binary texts of numbers.
- `src/vanilla`, `src/avalon`: the two baseline application chains.
- `src/fc_stor`, `src/fc_basic`, `src/fc_exec`: the multi-future application
  chains (messages and IBC handshake shared in `fc_stor`); `fc_basic/laws.rs`
  holds the shape every step keeps, `fc_exec/laws.rs` how a decision narrows
  a multi-future.
- `src/coordinator1`, `src/coordinator2`: the coordinators of one and two
  voting rounds; `coordinator2/laws.rs` holds what every vote keeps.
- `tests/`: scenarios on concrete values.
- `app/`: the CosmWasm entry points: storage through `cw_storage_plus`,
  JSON messages, and the conversion of responses into chain messages.
