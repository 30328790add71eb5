# helix_db

The query language front end and the gateway logic of a graph-vector
database, verified with Verus.

- `src/helixc/parser`: a lexer and a recursive-descent parser for HelixQL
  schemas, migrations and queries.
- `src/helixc/analyzer`: the checks of a parsed source (schema, migrations,
  queries, traversal typing) and the diagnostics they report.
- `src/helixc/generator`: the structures that code is generated from.
- `src/gateway`: MCP connections and tools, embedding settings, routes.
- `src/protocol`, `src/utils`, `src/engine`: values and how they compare,
  request formats, IDs, label hashes, adjacency entries, progress bars,
  configuration.
- `app/`: what runs around the library: JSON and binary encodings, the
  configuration file, HTTP requests to embedding providers, drawing
  progress bars.

Each public function states what it returns in its `ensures`; the laws of
the library (such as `law_numeral_round_trip`, `law_compare_flips`,
`law_add_then_remove`, `law_steps_compose`) are public proof functions.
