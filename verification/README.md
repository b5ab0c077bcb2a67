# tendril

Stateless desktop inspection and control for agents, as a Verus-verified
library (`src/`) with a thin command-line program around it (`app/`).

- `src/` holds the logic: the input DSL parser and validators, coordinate
  mapping, capture sizing, target discovery parsing and ordering, element
  listings, the execution lock's queue decisions, clipboard protocol
  decisions, audio recorder planning, Android adb planning and parsing,
  camera planning, the MCP tool surface and the human renderings. Every
  function carries a contract checked by Verus; calls into `image`,
  `base64` and `serde_json` go through small trusted wrappers.
- `app/` holds what Verus does not check: argument parsing (clap), the YAML
  configuration (serde), logging (tracing), process and file work, the X11
  connection (x11rb) and the MCP stdio transport.
- `tests/` exercises the library from outside.

The MCP server registers the thirteen tools of the command surface. The five
release-update and feedback tools (`self_update_status`, `self_update_check`,
`self_update_run`, `feedback_report`, `feedback_status`) front services that
this build does not carry, so a call to one of them is answered with the
`tool_unavailable` error rather than left out of the list.
