# competitions

The coordinator of weather competitions that are settled by ticketed discreet log contracts:
players buy tickets over Lightning, enter what they expect to be observed, and an oracle's
attestation decides which of them the contract pays.

`src/` is a library verified with Verus. It holds the lifecycle of a competition as a typed state
machine, the building and signing of its contract, settlement on the chain, the payouts that winners
sell back over Lightning, tickets and entries, Arkade escrows with their kickoff and refunds, and the
leases and runners that let two coordinators share one database. What it needs from outside comes in
as plain values; the few calls into other crates stand behind trusted functions, whose doc comments
say what is claimed of them.

`app/` is the service around the library: it talks to the database, the Lightning node, the chain,
the oracle, Keymeld and Arkade, does the work that the library asks for, and reports back.

`tests/` runs the library on concrete values, with the other crates linked.
