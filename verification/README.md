# ergot_demo

The verified core of a browser playground for [ergot](https://github.com/jamesmunns/ergot)
networks, written in Verus.

`src/` is the library, verified by Verus. Every executable function in it is proved
against its contract; the few that can say nothing of hidden shared state are noted below.

- `pipe` — the bounded in-memory byte pipe behind stream links. `PipeInner`, the pipe's
  state, has exact contracts, and the laws about it are proved: reads return what was
  written, in order; writes wait while the buffer is full; end-of-stream once the writer
  has closed and the buffer is drained. The shared handles `PipeReader` and `PipeWriter`
  act on a state held behind a shared lock that their contracts cannot see: each poll answers
  as `PipeInner` would for some well-formed state of the pipe's capacity, and `close`
  states no effect.
- `ring` — the bounded logs of sensor samples and tapped frames (they keep the newest
  entries and drain oldest first).
- `text`, `tap`, `counter` — address and frame-kind text, frame-tap labels and records,
  link generations and bus member ids.
- `node`, `link`, `registry`, `seqs` — node profiles, status, linking rules, the registries
  of live links (each generation held once) and their one-time teardown, and the sequence operations they share.
- `impairment`, `transport`, `bus` — link latency/loss decisions, packet-link sends, and
  the membership of a shared packet bus, whose member ids stay unique.
- `lease` — the state machines that lease and refresh bridge network ids and bus node ids.

`app/` holds the WebAssembly bindings, the ergot stacks and the spawned tasks that drive
the library; `tests/` exercises the library on concrete values.
