# Local upload agent

A desktop agent that uploads local video files for a web page. The page talks to the agent
over HTTP on `127.0.0.1:17777`. The agent sends a file in chunks, four at a time, to the
upload service, or has the `gcloud` tool copy it into Cloud Storage and the service import it.

`src/` is the library. It decides everything and does no I/O. Every function carries a
contract that Verus proves; the calls into other crates and the few parts of the standard
library that are taken on trust stand in `src/outside.rs`, with one exception: what
`String::push` does is stated in `src/text.rs`.

| Module | What it holds |
| --- | --- |
| `text` | trimming, searching, decimal numbers, order of texts |
| `paths` | file names under the Unix and the Windows rules |
| `outside` | calls whose contracts are taken on trust |
| `naming` | object names, media types, base URLs, directories |
| `task` | what is known of a task, and its log |
| `requests` | requests to the upload service, and what the replies mean |
| `chunks` | how a file is cut into chunks |
| `retry` | the upload of one chunk, with confirmation and retries |
| `pool` | the chunks of an upload, shared out among four workers |
| `upload` | an upload task from start to end |
| `gcloud` | how the `gcloud` tool is found and called |
| `tracker` | the progress of a copy, from the tool's tracker files |
| `import` | an import task from start to end |
| `updater` | updates of the agent itself |
| `registry` | the tasks by their identifiers |
| `routes` | the paths of the local interface |
| `server` | the state of the agent and its answers |
| `startup` | texts and choices of the start |
| `laws` | what holds of every task, and of tasks and requests together |

Paths are read in the library, under the rules of the platform that a `windows` flag names;
`app/` sets the flag. How Windows reads a path that begins with two separators, but does not
name a server, a share and a file there, is left to the standard library.

Work that alternates with I/O is written as a step: it takes the state and an event, changes
the state, and says what to do next. `app/` performs that and hands back the next event. It
holds the HTTP server and client, the child processes, the files, the JSON, and the desktop
shell. Percentages and rates are kept as fractions in the library; `app/` turns them into
numbers.
