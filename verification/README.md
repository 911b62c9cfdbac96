# vault_mcp_core

A generic, reusable MCP (Model Context Protocol) server for local-first personal-data apps: contacts
and company CRMs, or anything else shaped roughly like one. It knows nothing of an app's schema or
storage; an app brings a backend, and the server offers the backend's operations as MCP tools.

The library under `src/` is verified with Verus. A tool call goes through it in three steps:

1. The parameters are read from JSON (`params`, over `shape`, `record`, `flexible` and `json`). What
   is taken, what is refused and in which words is stated exactly. Some clients send every argument
   as a string, so integers that bound a listing may come as numeric strings. A field that
   `update_contact_fields` does not know is refused, never dropped.
2. A method of `McpServer` (`server`) turns the parameters into a call of the backend (`backend`),
   with the defaults and the caps of the tool. Which status a search without one goes by is left to
   the backend.
3. The backend's reply is answered (`reply`): as JSON text, or as a tool error with the text that
   the backend's error displays.

Between the second step and the third, whoever runs the server makes the call. `app/` does so: it
holds the async `McpBackend` trait, the tools with their schemas and descriptions, and the stdio
transport.

What holds of the library as a whole is in `laws`. What is believed of outside crates rather than
proved stands with the functions marked `external_body`: one each in `json`, `render`, `flexible`
and `server`, two in `reply`.
