# skills_dba

A local index of agent skills: SQLite storage with FTS5 full-text search, and
a sync of skills from remote sources such as a GitHub directory of markdown
files.

`src/` is the verified library (Verus):

- `text` — trimming, splitting and prefix tests on character sequences, each
  stated as a spec function and carried out on index ranges.
- `db::models` — skills, search queries, sync sources; `Skill::new`.
- `db::repo` — the FTS5 query of a search text, the statement and parameters
  of a search, the SQL statements, and the row a skill is stored as.
- `db::schema` — the tables.
- `sync::sources` — description and tags of a skill's markdown text, and the
  GitHub source's choice of files and the skills it makes of them.
- `sync::pipeline` — the decisions of a sync run.
- `outside` — the trusted calls into std, uuid, chrono and serde_json.

`app/` is the unverified rest: the SQLite connection and its REAL columns,
the HTTP requests, the async sync loop, and the serde forms of the records.
