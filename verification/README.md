# metrika

A service that keeps the goals of Yandex Metrika counters in PostgreSQL and
reports the visits of the goals a user selected.

- `src/` is the verified library: the data model, the decimal text of ids,
  how Metrika goals become the goals the service keeps, the addresses of the
  Metrika API, the dates of a statistics period, the checks of incoming
  requests, and the two request procedures (goals, statistics) as step
  functions from a report of the outside world to the next action.
- `app/` is the server around it: axum routes, sqlx queries, reqwest calls,
  serde JSON, pauses, and the float sums of the statistics.
- `tests/` exercises the library on concrete values.
