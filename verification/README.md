# deepseek-code-agent

The decision logic of a desktop coding agent: it clarifies a request,
drafts a development plan, and executes a confirmed plan by asking a
language model for tool calls and carrying them out in the project
directory.

- `src/` is the library, verified with Verus: command risk assessment,
  confinement of file tools to the project directory (paths are compared
  component by component once `.` and `..` are resolved), tool dispatch,
  the execution state machine, streamed reply accumulation, plan extraction from model text,
  the record types and their text forms, and the project templates.
- `app/` wraps the library with the parts that do I/O: the database, the
  key store, HTTP calls to the model, files and processes.
- `tests/` runs the library on concrete values.
