# my-task-sync

A local HTTP server that exposes the SQLite database of my-task over REST, so
that a web application can read and write tasks. It listens on this machine
only, asks for a bearer token, and can start ngrok to make itself public.

The library in `src/` is verified with Verus. `app/` holds what surrounds it:
the entry point, sockets, files, the ngrok process and the JSON encoding.

## Layout

| Module                    | Holds                                                              |
|---------------------------|--------------------------------------------------------------------|
| `text`, `json`, `date`    | texts, JSON values, dates and instants                             |
| `sql`, `statement`        | values to and from SQLite, and every statement that is run         |
| `session`                 | a connection with a ghost transcript of all that passed over it    |
| `sqlite`                  | reading and writing tasks, projects and reminders                  |
| `http`                    | authentication and the handlers of `/api/*`                        |
| `config`, `server`        | command line, configuration, life of the server                    |
| `ngrok`                   | start and end of the ngrok subprocess                              |
| `api_client`              | requests and attempts of the remote sync client                    |
| `sync_state`, `sync_engine` | the sync cycle and its state                                     |
| `tables`, `effects`       | a model of the database, and what the functions do to it           |
| `laws`                    | laws of the handlers and of the sync cycle                         |

## How contracts speak of the database

What SQLite answers depends on a file that other programs write as well. No
contract says what a reply is. A `Session` records, in ghost state, each
statement with its values and the reply to it. The contract of a function says
which run of statements the transcript shows, and what the function makes of
the replies: these are the spec functions whose names end in `_trace`.

`tables` says what each statement means on a model of the tables. The laws
combine both. For example, under the condition that SQLite does what its
documentation says and that nobody else writes, a task that was created is what
a request for it gives, and a request that fails leaves the tables as they
were.
