# vrcs_core

The verified core of VRCS, a real-time subtitle and translation tool for
VRChat. `src/` holds the logic with its contracts, proved by Verus:

- configuration: defaults, validation of every settings section, provider
  catalog and API profiles, recognition service settings;
- credentials: secret targets, environment overrides, the store's contents;
- cloud recognition: adapters, session replies, normalization of events,
  live translation sentence pairing and timing, the decisions of a
  streaming session as a step function, reconnection policy;
- LLM (Gemini): request bodies, response and stream parsing, errors;
- overlay: headset and wrist presentation state, display text, layouts;
- audio: device snapshots, process taps on the audio graph, capture format
  negotiation, process lookup by name;
- diagnostics: log text cleaning, report selection and layout;
- domain events and subtitle history decisions.

`app/` is ordinary Rust around it: files, environment, HTTP, event delivery,
JSON copies of the core's types, and the overlay's floating-point timing and
placement. `tests/` exercises the library from outside.
