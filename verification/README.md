# afmer_etl

Converts ATF AFMER reports (Annual Firearms Manufacturing and Exportation
Report) into rows of a SQLite database, enriched with a temporal dimension of
federal firearms licenses (FFL).

- `src/` is the library, verified with Verus: parsing of the report layouts, the
  license dimension, links and labels, the changes made to the database and the
  JSON export. Its `*_laws.rs` modules, and the `law_*` functions elsewhere,
  state what holds of several functions together.
- `tests/` runs the library on concrete values.
- `app/` is the program around it: command line, files, PDF text and worksheets,
  and the database connection.

The library calls `csv`, `serde_json` and `flate2` through functions whose
contracts are trusted; each names the function that it calls.
