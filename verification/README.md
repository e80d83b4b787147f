# pg_actions

A command-line tool for the administration of PostgreSQL servers: clone, back up and
restore databases (to files or an S3-compatible store), and list, create, change and
delete roles, databases and extensions.

The decisions of the tool are a library verified with Verus (`src/`):

* `structs` – credentials, tool paths, S3 settings, listing entries, option values, errors;
* `text` – decimal numbers, splitting, trimming and replacing on character sequences;
* `db` – the SQL the tool runs (`general`, `user`, `database`, `extension`), the
  `.pgpass` format (written and read back), the client-program arguments, fuzzy filtering;
* `output` – what a listing shows in each format, CSV documents;
* `misc` – S3 settings checks, object keys, client-program versions, random names;
* `backup`, `clone`, `restore` – plans and step machines of the three commands;
* `database`, `user`, `extension` – listing rows and lines;
* `session` – the credentials and log level of a run.

`app/` is the program around it: the command line, logging, connections, processes,
archives and S3 transfers. It performs what the library decides and reports back.

`tests/` runs the library on concrete values.
