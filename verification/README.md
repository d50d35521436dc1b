# watchdog

Keeps game servers running. For each configured *instance* the watchdog extracts the server of the
*fork* that the instance is assigned to, starts it, kills it when it stops reporting, and starts it
again. Operators restart, stop and reassign instances, and publishers announce new builds of their
forks, through HTTP requests with basic authentication.

- `src/` is the library. It makes the decisions and is verified with Verus.
- `app/` is the program: it reads files, fetches, runs processes and serves requests, as the
  library says.
- `tests/` runs the library on concrete values.

| module | what it decides |
| --- | --- |
| `manifest`, `digest` | which build of a fork is the newest, and whether an archive is that build |
| `forks`, `setup` | how forks are set up at start, and how a fork is updated |
| `extract` | which files of an archive are written, and under which names |
| `launch` | how a server is started |
| `instances` | what an instance is, and the internal token that a running server reports with |
| `run` | the course of one run, from extraction to the end of the process |
| `supervisor` | what follows the end of a run |
| `auth`, `handlers` | who may command what, and what a request leads to |
| `config` | how the configuration file is rewritten when an instance is reassigned |
| `table`, `text`, `errors` | tables by name, numerals, messages |

Times are nanoseconds on a clock that only goes forward; the program measures them.
