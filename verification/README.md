# busy

A command-line tool that draws on a BUSY Bar, built as a verified library and
a thin program around it.

- `src/` is the library, with its contracts proved: the payloads the bar is sent,
  the rules for every flag and value, the `.anim` header check, ASCII
  sanitizing, colour and priority parsing, layered configuration, template
  variables, escaping and offline validation, and the text each command
  prints. Calls into `busylib`, `minijinja`, `jiff`, `image` and `etcetera`
  stand behind small trusted functions whose contracts say what those crates
  do.
- `app/` is the program: argument parsing with `clap`, files and stdin, the
  HTTP client, JSON output, and the conversion between the library's values
  and `busylib`'s wire types.
- `tests/` exercises the library on concrete values.
