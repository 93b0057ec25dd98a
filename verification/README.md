# swi_prolog

Bindings to the SWI-Prolog C interface (`SWI-Prolog.h`), split in two.

- `src/` is the verified core. It holds the term model (`Term`, `Data`), the
  decoding of the status codes of the C interface (`bindings`), runs of
  consecutive term references (`TermRefs`), foreign frames and the layout in
  which terms are written into term references (`frame`), functors, and the
  state of a running query (`Query`). Every operation that the C interface has
  to perform is either handed in as a function (allocation of term references,
  opening a frame, making a functor) or returned as a step for the embedding
  program to carry out (`WriteStep`).
- `app/` is the embedding program: the `extern "C"` declarations of
  `libswipl`, the execution of write steps, reading values back, the engine
  pool and the asynchronous front end on a tokio runtime.

Floating-point values are held in the core by their IEEE-754 bit patterns;
`app/floats.rs` converts.
