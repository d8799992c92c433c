# app_shell

The decision logic of a desktop video-editor shell, verified with Verus:
pane visibility and layout trees, menu and shortcut routing, the session
registry, preference documents, the media library grid (filters, sorting,
selection, folder paths), the AI generation form (model caps, parameter
correction, reference slots, settings, the request it submits), captions
and music tabs, the MCP server lifecycle and the HTTP generation protocol.

- `src/` is the verified library. Each public function states its result
  over spec functions and views; the public `lemma_*` proof functions state
  the properties that span several calls.
- `tests/` runs the library on concrete values.
- `app/` holds what the library leaves out: file and network I/O, floating
  point geometry and the values derived from it.
