# laverna

The reasoning core and assistant logic of L, verified with Verus.

`src/` is the verified library. Every public function states what it returns
in its contract, and the properties that span functions are public proof
functions named `law_*`:

- `domain`, `understanding`, `wheel`: the nine-domain wheel, composition
  aspects, the K-12 understanding axis, the wheel graph with its path table and
  the exhaustive path search.
- `gate`: comparison policies, gate outcomes and their aggregate, validation
  verdicts, domain binding, proof recomputation, bracket balance, equation
  sides and operator form.
- `intent`: the classifier from user text to intent.
- `route`, `personality`, `llm`, `agent`: how an intent is answered, the
  cleanup of what is said, the messages sent to the model, the sanitizing of
  its answers, and the agent loop as a state machine.
- `actions`: tool decoding, timers, reminders, the schedule store's list
  operations, device replies and the web tools' checks.
- `memory`: facts, preferences, conversation history.
- `serve`: the HTTP and JSON-RPC front doors' parsing and routing.
- `primitive`, `vad`, `proactive`, `strategy`, `error`: the NAND DAG's
  structure, voice-activity tracking, proactive suggestions, the world state,
  and error messages.
- `text`, `scan`: verified text primitives over `Seq<char>`.

Calls into std's Unicode tables, `urlencoding` and `serde_json` stand behind a
few `external_body` wrappers whose contracts are stated in their doc comments.

`app/` is ordinary Rust around the library: processes, files, network, audio,
the model server, floating-point arithmetic and the serde forms of the
library's types. `tests/` exercises the library on concrete values.
