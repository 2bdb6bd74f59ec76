# eidolon

The verified core of a desktop API workbench and CRUD code generator.

- `src/` is the library, verified with Verus: the API-client tables and their rules
  (`api_store`), request preparation and response handling (`api_http`), execution history,
  the JSON-backed repositories of agents, conversations, models and MCP services
  (`repositories`, `store`), the assistant's request planning (`assistant`), the SQL/Go
  parsers and Go/TypeScript generators (`codegen`), and working-directory confinement.
- `app/` is the unverified shell around it: file and network I/O, serde copies of the
  library's records, and the hand-off to the HTTP, model and MCP clients.
- `tests/` exercises the library through its public API.
