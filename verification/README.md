# axon

Axon is a configuration-driven inference server for real-time model serving. A
config file names a model, a feature store and a list of preprocessing stages;
axon serves predictions over gRPC.

The library in `src/` is verified with Verus. It holds everything that decides
something; the program in `app/` does the talking to files, sockets, the ONNX
runtime, Redis, MLflow, Kafka and Prometheus.

| Module | What it is about |
| --- | --- |
| `numeric`, `rounding`, `arithmetic` | single-precision values as bit patterns: order, and correctly rounded difference, product and reciprocal |
| `text` | numerals, lists, quoting, trimming, reading numbers |
| `types` | tensors and bounded identifiers |
| `error` | error types and their messages |
| `config`, `startup` | the config, what makes it valid, defaults |
| `pipeline` | the scratchpad, the stages, laying out a pipeline, pools |
| `backend` | the backend trait, writing outputs, Triton packaging |
| `store`, `registry` | keys and replies of the feature store and the model registry, the starter config |
| `server` | a request's way from receipt to reply, step by step |
| `predictions`, `health`, `metrics` | prediction sampling, readiness, declared metrics |

Features and scores are kept as IEEE 754 bit patterns (`numeric::F32`), so that
every stage can be stated and proved over integers. A NaN result is only known
to be a NaN; every other result is exact.

Proof functions whose names start with `law_` state what holds across functions,
such as that clipping is idempotent, that a reset leaves no trace of a request, or
that readiness changes exactly when the last two checks have failed.
