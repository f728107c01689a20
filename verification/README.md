# wydy

A small command launcher. The client (`wydy COMMAND...`) sends a line of text
to the daemon (`wydyd [ADDRESS]`, or `wydy --start-server`); the daemon turns it into the commands it
can mean — run a program, edit or run one of the user's scripts, open a URL,
search the web — lets the user choose, and runs the command on the daemon's
side or sends it back to the client.

Layout:

- `src/` — the verified library (Verus): the grammars (`parser`), the user
  variables (`env`), how a line becomes commands (`command`, `script`,
  `url_check`), the messages between client and daemon (`protocol`), the daemon's side of
  a conversation as a state machine (`server`),
  decimal numbers (`number`), text helpers (`text`), configuration paths and
  the daemon address (`config`), and the text line of the graphical client
  (`ui`). Laws that relate several functions are the `law_*` proof functions.
- `app/` — the program around it: sockets, threads, files, processes, logging
  and command-line arguments. The daemon carries out the actions that
  `server::server_step` gives and hands it back what it read or found out.
- `tests/` — tests of the library on concrete values.
