# tvm-serve

A server for models compiled by TVM, over the Open Inference Protocol v2: REST on
`8080` and gRPC on `9000`. The decisions that the server makes stand in a library
that is verified with Verus; the program around it does the input and output.

| Path                | Content                                                                    |
| ------------------- | -------------------------------------------------------------------------- |
| `src/relax.rs`      | `metadata.json` and the check of a model against the runtime.              |
| `src/startup.rs`    | The checks before the first request, and the warm-up of the worker pool.   |
| `src/worker.rs`     | Requests against the model's signature, and the outputs of a run.          |
| `src/protocol.rs`   | v2 data types, tensors, shapes and messages.                               |
| `src/json.rs`       | Numbers out of JSON values.                                                |
| `src/rest.rs`       | REST messages, statuses and settings.                                      |
| `src/grpc.rs`       | gRPC messages and statuses, raw and typed tensor contents.                 |
| `src/float_bits.rs` | IEEE 754 conversions on bit patterns.                                      |
| `src/text.rs`       | Decimal numbers and scanning of text.                                      |
| `tests/`            | Tests of the library on concrete values.                                   |
| `app/`              | `main`, the transports, the worker threads, and the TVM runtime.           |

## What is proved

- A model is taken exactly when its TVM version and revision are those of the
  runtime, its target is an LLVM one for the runtime's architecture, and every
  input and output has a data type that can be served.
- The pool is ready exactly when every worker has loaded its copy of the model.
- Inputs are matched by name, in the order of the model, when every input has one
  and the names are those of the model, otherwise by position; no input is lost or
  changed.
- A shape is accepted exactly when its dimensions are not negative and multiply,
  within the range of `i64`, to the number of elements.
- Tensors read back from typed gRPC contents and raw bytes as they were written,
  and from JSON where every element is finite.
- A request is decoded, then validated, then run; both transports accept the same
  requests and answer failures alike.

Floating-point elements are held by their bits. What the library takes on trust
of other crates stands in `src/json.rs` (serde_json) and `src/text.rs` (the
standard library), each item with a comment that says what is claimed.

## Configuration

| Variable              | Default         | Description                                                       |
| --------------------- | --------------- | ----------------------------------------------------------------- |
| `TVM_MODEL_DIR`       | `/shared/model` | Folder with `model.so` and `metadata.json`.                       |
| `TVM_MODEL_NAME`      | `model`         | Model name in the URLs, `/v2/models/<name>`.                      |
| `TVM_SERVE_WORKERS`   | `1`             | Inferences run in parallel; each worker loads its own model copy. |
| `TVM_SERVE_PORT`      | `8080`          | REST port.                                                        |
| `TVM_SERVE_GRPC_PORT` | `9000`          | gRPC port.                                                        |

`TVM_VERSION` and `TVM_GIT_COMMIT` are read when the program is built; without
them it refuses every model.
