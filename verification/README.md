# frame_host

The verified core of an application frame host: a program that runs a game
server (Factorio) as a child process, logs what it does, and serves a small
web front end.

- `src/` holds the logic, with its contracts and proofs: the server configuration read
  from JSON (`config`), the plans to start and stop the hosted process
  (`server`), path joining (`paths`), the routing of log messages to the
  terminal and to file sinks (`logging`, `basic_logger`, `drains`), the
  websocket's answers (`web`) and the main loop's decisions (`supervisor`).
- `app/` is the program around it: it reads files, spawns processes, writes
  to slog loggers and runs the actix web server, carrying out the plans and
  deliveries that the library returns.
