# ogc-cql2

A library for OGC CQL2 filter expressions, written in Verus: the values
that filters compare (`Q`, `QString`, `Bound`), the semantics of every
operator, the evaluation and partial evaluation of expression trees, their
text, the SQL `WHERE` clauses that data sources generate, and the decisions made
when opening GeoPackage and PostGIS data sources — each function with a
contract that Verus proves.

## Layout

- `src/` — the verified library.
  - `queryable.rs`, `qstring.rs`, `bound.rs`: queryable values, strings
    that ignore case and/or accents (with `LIKE`), temporal bounds.
  - `eval.rs`: the rules of the logical, comparison, `LIKE`/`BETWEEN`/`IN`,
    temporal and array operators; `expr.rs`: expression trees, their
    evaluation and reduction, and their text; `laws.rs`: laws of evaluation
    over whole expressions.
  - `function.rs`: the signatures of user functions and how values pass to
    and from them, and the builtin string functions.
  - `op.rs`, `json.rs`: operators, and the names and date strings of the JSON
    encoding.
  - `numeric.rs`, `srid.rs`, `config.rs`: integers and their exactness as
    doubles, spatial reference identifiers, configuration settings.
  - `ds/`: collations, SQL `WHERE` clauses (`filter.rs`) and their temporal
    predicates (`sql.rs`), CSV, GeoPackage and PostGIS data sources.
  - `unicode.rs`: case folding, normalization and lower-casing, through
    `unicase`, `unicode-normalization` and `std`.
- `tests/` — tests of the library.
- `app/` — the code around it: environment, databases (`sqlx`), floating
  point arithmetic, GEOS and PROJ, and the registry of user functions.

Floating point numbers and geometries are held in the library by order- and
identity-keeping tokens (`Num`, `Geom`); what only floating point, GEOS,
PROJ or a user's function can compute is asked of a host. The host's
answers are named by spec functions of its trait, except those of user
functions, which may change from call to call: evaluation is stated for
every answer they may give.
