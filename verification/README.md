# sqlite_cms

A small content management system on SQLite, with its decisions written in
Verus and proved against their contracts.

- `src/` is the verified library: naming rules for tables, views and
  columns; the SQL it writes (`CREATE TABLE`, migrations, view definitions,
  row queries, cell updates, test data inserts) and the SQL it reads back;
  the data viewer's sorting, filtering and column widths; layout files,
  static assets and layout packages; widget types, their fragments and the template context of each
  placeholder; the content of the sample layout sets; the
  contact form's signed tokens; backup archives; admin passwords and the protected `admin` account.
- `app/` holds what runs around it: database queries through `sqlx`, the
  file system, ZIP archives, JSON (de)serialisation and floating point cell
  values.
- `tests/` exercises the library on concrete values.
