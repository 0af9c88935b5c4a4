# forall_mcp_author

The verified core of a workspace authoring service for Forall projects.

- `src/mapping/schema.rs`: the requirement mapping, its validation
  (`validate_mapping`), the verification-tier summary
  (`summarize_verification`), and the laws that relate them.
- `src/server.rs`: the requests of the authoring tools, the tool catalogue,
  tool lookup by name, and the translation of requests into authoring
  operations.
- `src/expected.rs`: the per-file expected hashes an operation is checked
  against.
- `src/config.rs`: the MCP client entry that binds the service to a workspace.
- `app/`: the serde/schemars copies of the library's types, the rmcp stdio
  server, and the JSON client configuration.
