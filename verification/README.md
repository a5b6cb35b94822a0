# mcp_probe

Contract testing and conformance checks for Model Context Protocol (MCP) servers, with
its core verified in Verus.

- `src/` is the verified library: the JSON model and its exact text forms, structural
  matching (subset, strict, order-independent arrays as an assignment search), JSON
  Pointer lookup, JSON Schema checks through `jsonschema`, the suite model, the
  suite-run state machine (`driver`), the message-level decisions of an MCP session
  (framing, classification, request ids, handshake checks), trace redaction, fuzz
  variations, and JUnit/SARIF reports.
- `app/` is the `mcp-probe` command line: it parses suite files, spawns servers, moves
  bytes over stdio, performs the driver's actions and writes the reports.
- `tests/` exercise the library on concrete values.
