# chord_proxy

The decisions of an inference proxy that shares one GPU host with builds and measurements,
written in Verus and proved against their contracts, and a thin program around them.

## What is proved

`src/` holds the decisions, as functions from plain values to plain values, but for those on
floating-point numbers and those of the parts that are attached behind traits in `app/`. Time, the
environment, replies of other servers and the state of a process come in as arguments.

| Module | What it decides |
|--------|-----------------|
| `gpu_exclusive` | who holds the GPU and for how long; which models are unloaded or pinned |
| `admin::idle`, `admin::laws` | the state machine of idle mode, its generations and its laws |
| `admin::release` | what is released on the way into idle mode, and in which order |
| `admin::replies` | which requests are admitted, and what the operator is answered |
| `admin::watchdog` | when an idle episode that nobody ends is ended |
| `agentic` | what a classifier's output means, and which model serves a turn |
| `aliases`, `config`, `config_text`, `env` | what the environment configures |
| `batch_report` | how measured points become charts, and charts a page |
| `coding_proxy` | which healthy candidate serves a piece of coding work |
| `control` | the answers of the control endpoints; routes; bringing models in |
| `diffusion` | when the diffusion daemon is started, adopted or stopped |
| `embeddings` | which backend's vectors are served, and when neither's are |
| `meminfo` | what the kernel says of memory |
| `text`, `decimal`, `table`, `json`, `order` | the values all of it is made of |

Public proof functions whose names begin with `law_` state what holds across calls.

What the library has from outside (`chrono`, `regex`, `serde_json` and a few functions of the
standard library) stands behind wrappers whose comments say what is believed of each.

## The program

`app/` reads files and the environment, asks other servers, runs the daemon and serves HTTP.
Memory sizes, scores and the geometry of charts are floating-point numbers and stay there.

`chord-proxy` serves; `chord-proxy --check-config` tells whether the model aliases can be used;
`chord-proxy batch-report [PATH]` writes the page of measured curves.
