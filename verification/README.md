# dag_scheduler

Schedulers for computations whose stages run on worker threads connected by
crossbeam channels, with their decisions verified by Verus.

- `src/` is the verified library:
  - `scheduler` — a graph of named nodes; each node reads from chosen outputs
    of nodes registered before it (`nodes` holds the node trait and
    `CommonNode`, a ready node built from a function).
  - `pipeline` — the pipeline scheduler: which stage kinds may follow which,
    one channel per stage, and which endpoints each stage's workers get when the
    pipeline starts.
  - `pipeline_v2` — the pipeline's node trait, the protocol a worker follows
    (a state machine from events to actions), the numbering and naming of worker
    threads, demonstration nodes, and an earlier draft of the scheduler.
  - `ppl_v2`, `ppl_v3` — the marker types and stage traits of the typed
    pipelines, the names of a stage's threads, the channel a stage writes to,
    and the protocol each worker of a typed stage follows.
  - `channel` — the crossbeam endpoints, `Channel` (the two ends of one
    bounded channel kept together with its capacity) and the calls into
    crossbeam that the library trusts.
  - `text` — comparing node names, and thread names with their numbers in
    decimal.
- The schedulers hold their nodes in a `Vec` of a node type `N`, with distinct
  names as an invariant, rather than in a `HashMap<String, Box<dyn ...>>`:
  Verus refuses a trait object whose trait has an associated type binding, a
  value holding a trait object carries no type facts inside a `Seq` (so not
  even the length of a pushed sequence could be proved), and vstd's
  specification of `HashMap` gives its lookups meaning only for keys that obey
  its key model, which it establishes for integer and boolean keys, not for
  `String` (the rules forbid assuming it). The registry of
  worker numbers is a `Vec<(String, usize)>` for the same reason. To mix node
  kinds in one scheduler, use an enum that implements the node trait.
- `app/` spawns, drives and joins the threads: it runs the worker state machines
  over blocking channel operations, runs a whole graph (`run_graph`) and builds
  the typed pipelines.
- `tests/` exercises the library without threads; the full pipeline test drives
  every worker's state machine in turn on one thread.
