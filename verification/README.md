# kexsh

The core of kexsh, a terminal multiplexer: a background server keeps terminals and the
views that arrange them, and clients attach to them over a Unix socket.

- `src/` is the library. Every function in it states what it does in `requires` and
  `ensures` clauses, and Verus proves it. Public proof functions state what holds of several
  functions together, such as that a frame is read back as it was written.
- `tests/` runs the library on concrete values.
- `app/` holds what is left around it: sockets, files, pseudo-terminals, processes, and the
  drawing of the screen.

| Module | What it holds |
| --- | --- |
| `config`, `credential` | settings and the login |
| `ipc` | messages, framing, the client's end of a connection |
| `directory`, `ident` | looking things up by id or name, and drawing new ids |
| `terminal` | the registry of terminals, and what an attached client does |
| `view` | the registry of views |
| `server` | what the server does about each request and frame |
| `clock`, `paths`, `text`, `error` | timestamps, paths, text and errors |

A few calls into other crates and into the standard library are taken on trust. Each stands
in a function marked `external_body`, or in an `assume_specification`, whose comment says
what is assumed of it.
