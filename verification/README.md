# snowblog

A blog service for posts written in Typst. Sources, translations and assets
live in SQLite; every write renders the post to HTML and stores the artifact
with the renderer version and an input hash; a JSON API serves published
posts and gates every mutation behind a bearer token and an `If-Match`
revision.

## Layout

- `src/` is the verified library. Each function carries a contract that
  Verus proves:
  - `domain`: slugs, language tags, statuses, identifiers, revisions,
    instants and diagnostics.
  - `import`: the importer's decisions: which files are posts, the
    frontmatter block, source adaptations, asset references, and what an
    import reports.
  - `render`: the input hash, the preamble, and the size limits around a
    compile.
  - `store`: the checks each transaction makes, and how stored rows read
    back.
  - `service`: freshness of renders, the publish gate, and what a finished
    render stores.
  - `server`: problem responses, entity tags, the `If-Match` precondition,
    the admin token, and the views the API shows.
  - `telemetry`: the bounded label values of every metric.
- `app/` is the program around it: the SQL, the Typst compile, the HTTP
  routes, the commands, and the JSON shapes of the library's types.
- `tests/` runs the library on concrete values.

The laws that relate several functions are public proof functions, named
`lemma_*`, next to the functions they speak of.
