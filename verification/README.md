# NovelNote

NovelNote is a self-hosted book tracker. Use it to keep track of books you have read and those you
want to read.

## Layout

- `src/` is a library of the decisions behind NovelNote, verified with
  [Verus](https://github.com/verus-lang/verus). It does no input or output. Where a decision depends
  on what happens outside, it is a state machine: each step takes in what happened and says what to
  do next.
  - `admin` holds the admin socket: how messages are framed, who may connect, what is answered and
    when the server stops.
  - `backup` holds database backups: what they are called, which of them are removed, and in which
    order a backup is made.
  - `command`, `serve` and `server` hold what the commands do, how the servers are run and how the
    HTTP server is.
  - `config` holds what follows from the configuration: paths, directories, logging.
  - `database` holds how the database is opened, used from one thread and closed.
  - `civil`, `path`, `text` and `timeout` hold what the others are built from, `trace` what runs of
    state machines are.
- `app/` is the program around the library. It reads the configuration and arguments, performs the
  steps and reports back.
- `tests/` runs the library on examples.

## What is trusted

Outside crates are called from the library through small wrappers. Their contracts are not proved.
Each of them names the function that it calls and says what is claimed of it.
