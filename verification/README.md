# endpoint_gen

Scaffolding for Go web services: given a module and an endpoint name, it
generates the use case, test, errors, REST handler and codes files, and
registers the new handler in the module container, the Wire injector, the
web handler container and `functions.go`.

- `src/` is the verified library (Verus): naming conventions (`naming`),
  file templates (`template`), the edits of existing Go files
  (`container`, `wire`, `handlers`), reading the project name from
  `go.mod` (`gomod`), and the character-level search, insertion,
  replacement and trimming they are built on (`search`, `edit`, `text`).
  Regular expressions come from the `regex` crate through `pattern`.
  `wire_laws` proves what a second registration of a module does to the
  Wire injector. `container_laws` proves what adding a second handler does
  to a freshly generated container: the import and field steps, and the
  constructor step given the constructor signature that the file holds
  (which text the constructor pattern matches is left to the `regex`
  crate and only named).
- `app/` is the command-line program: prompts, file system access and
  messages.
- `tests/` exercise the library on concrete Go sources.
