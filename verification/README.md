# rustpipe

Type-safe middleware and transform pipelines, written in Verus.

- `src/` is the verified library: the middleware `Pipeline` with its `Next`
  continuation, the sequential `TransformPipeline`, the step pipelines in
  `pipeline` and `simple`, the error values, and the laws that relate them
  (sequential composition of transforms and steps, empty pipelines returning
  their input, missing input always being reported, `rescue` failing only on a
  missing input, `then` and `rescue` following `then_return` when the pipes
  give one outcome each), and the step functions that decide how an
  asynchronous transform run goes on.
- `app/` holds what Verus does not take: the error types with `Display` and
  `std::error::Error`, and the asynchronous pipes, whose futures are awaited
  there, each step of a transform run being decided by the library.
- `tests/` exercises the library on concrete values.
