# agent_framework

A verified core for building agents on language models: messages and options, the run loop
with its tools, streaming, sessions, compaction, skills, orchestration of several agents, and
the clients and servers that agents are reached through.

- `src/` is the library. Its executable functions state what they return or change, and Verus
  proves it. Nothing is stated of three things: what time the clock tells, what a dropped
  secret leaves in memory, and how an evaluator of the user's own is named and scores. Laws
  that relate several functions are public proof functions whose names start with `law_`.
- `app/` is what the library needs around it to run: HTTP clients and servers, child
  processes, files and the JSON forms of the library's types. It asks the library what to do,
  does it, and tells the library what came of it.
- `tests/` runs the library on concrete values.

Calls into other crates stand behind small functions marked `#[verifier::external_body]`,
whose comments say what is believed of each call.
