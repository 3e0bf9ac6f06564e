# ontogen

Code generation for ontology-described applications: entity schemas
annotated with `#[ontology(...)]` become store code, API modules, server
transport metadata, TypeScript bindings, an admin layer and reference
documentation.

The generation logic is written in Verus and proved against its contracts.

## Layout

- `src/` — the verified library.
  - `text`, `naming`, `order` — string toolkit, case conversion and
    pluralisation, lexicographic ordering, sorting and de-duplication.
  - `schema` — the entity model and the attribute-driven schema parser,
    with identifier validation.
  - `attrs`, `ir` — attribute shapes and the intermediate representation
    shared by the stages.
  - `api` — API module layout for entities and scanned modules.
  - `servers` — API source scanning, operation classification, routes, IPC
    commands and MCP tools, multi-surface merging, shared-type
    qualification, `use` blocks, and manifest reading.
  - `store` — update structs and conversions, CRUD generation per backend,
    markdown frontmatter, hook scaffolding.
  - `clients` — client generator configuration, schema-known TypeScript
    bindings, long-tail type roots.
  - `admin` — admin layer installation edits.
  - `docs` — Markdown data-model reference and JSON Schema documents.
  - `pipeline` — the builder, its stage resolution and the store's
    persistence backend.
  - `source` — Rust source files read with `syn` into the library's plain
    values, and the schema and API files parsed from their text.
- `tests/` — tests of the library on concrete values.
- `app/` — the build-script side: walking directories, reading and writing
  files, and serialising JSON.

## Checking

The library is verified with Verus; the tests run with the outside crates
linked (`cruet` for pluralisation, `sha2` for schema revisions, `syn` and
`quote` for reading Rust sources, `serde` and `serde_json` for JSON).
