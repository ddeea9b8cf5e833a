# crust

A small backup tool: `crust pack` copies the files, directories and
environment variables named in `~/.config/crust/config.toml` into a staging
directory below `/tmp/crust`, archives it with tar and compresses it with
zstd; `crust unpack <archive>` restores the files to where they came from;
`crust listen` and `crust connect` move an archive over TCP.

Layout:

- `src/` is the library, verified with Verus: the command line and how it
  combines with `config.toml` (`cli`, `config`), port numbers and printed
  numbers (`decimal`), addresses (`address`), text and path operations (`text`, `paths`), staging
  and restore paths (`filesystem`, `unpack`, `decompress`), the environment
  variable file (`envvars`), compression (`pack`, `unpack`, `compression`),
  and the network endpoint and messages (`network`).
- `app/` is the program: it reads the configuration file, the command line
  and the environment, walks and copies files, runs tar, and opens sockets,
  and takes every decision and printed line from the library.
- `tests/` runs the library on concrete values.
