# mmdb

Evidence-first memory records, verified with Verus.

`src/` holds the library: what a memory store records and how each operation changes it
(`store`, `staging` and the operation modules), what recall answers, which changes agents may
propose and how they are applied, and the graph of memories that is walked for a query. Every
operation first makes a plan, a batch of writes with its receipt, and then carries it out; the
contracts say what state the plan leads to.

The modules `books`, `readback`, `workflow`, `standings`, `enacting`, `history`, `citations`,
`finding` and `closure` state what holds across operations: requests that are retried, records
that read back, retractions that reach what rests on a record, accepted proposals that take
hold as a whole, recall that misses no exact match. `keeping` states what holds of every store,
and `enduring` and `proceeding` that every operation keeps it. `normal` is about bundles in
their normal form, and `breadth` about how a graph is walked.

`app/` keeps stores on disk, calls embedding models and agents, and weighs scores in floating
point. `tests/` runs the library.
