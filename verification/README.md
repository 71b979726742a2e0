# phone_buddy

The core of a client for language models that runs on phones, written in Verus: what
it decides is proved, and what it sends, waits for and listens to is left to the code
around it.

## Layout

`src/` is the verified library.

- `text`, `json`: text operations, and JSON values with their text.
- `error`, `events`, `types`: the data that the other modules speak of.
- `payload`, `frames`, `responses`: the Responses API, from a request to its body and
  from a frame of the answer to a chunk.
- `continuation`: what a turn that broke off is good for, how it is asked for again,
  and how the two parts become one without showing anything twice.
- `failover`: what of a conversation another provider may see.
- `failure`: what kind of failure an error is.
- `attempt`: the visit of one provider, as a machine from answers to actions.
- `operation`: the visits of a plan, from the first request to an answer or an error.
- `slots`, `client`: the routing configuration, and the slots that a client binds.
- `context`: what providers keep within one logical turn.
- `ffi`: the decisions behind the C interface.

Public proof functions whose names begin with `law_` state what holds of the library
as a whole. Functions marked `external_body` call `serde_json`, `uuid` or the standard
library; their contracts are trusted.

`tests/` runs the library on concrete values. `app/` is ordinary Rust around it: the
asynchronous client, the typed decoders, the log and the C interface. It is built
around a router, transports and policies that it takes as traits.
