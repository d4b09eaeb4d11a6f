# reporte_contrataciones

A dashboard over any SQLite database: it explores the tables and views,
decides how each column can be filtered, builds the parameterised queries of
the filtered dashboard, and fills report templates with the results.

- `src/` is the verified library. Its own functions state their behaviour
  in `requires`/`ensures` and Verus proves it. The calls into `rusqlite`,
  `chrono` and a few `std` functions are trusted wrappers: each says in its
  doc comment what its contract claims. What the database answers is not
  stated: every answer (its rows, or the error when the query could not be
  run) carries a ghost record of its query, taken from what the calls into
  `rusqlite` were given (the text handed to `prepare`, the values bound), and
  the functions that query state, over those tagged answers, which query's
  answer fills which result and what they make of each answer, failures
  included.
  - `db/`: the database layer. `sqlite` holds the calls into `rusqlite`;
    `schema` lists tables, views, columns and keys; `analysis` decides the
    filter of each column, the status column, the naming column of a
    catalogue and the dependencies between columns; `dashboard` builds the
    `WHERE` clause and the queries and turns their rows into a dashboard;
    `explorer` puts the exploration together.
  - `redactor`: report templates.
  - `config`: settings from environment values, comma-separated lists, the
    default database file.
  - `sesion`: the decisions of the user session (table list, selection,
    initial filters, paging, chart order, calendar months).
  - `export`: the contents of the Excel sheet and of the PDF's text lines.
  - `texto`, `orden`, `fraccion`: text operations, the order of strings, and
    exact comparison of fractions.
- `tests/`: tests of the library, many over in-memory databases.
- `app/`: the desktop program (egui): windows, files, exports.
