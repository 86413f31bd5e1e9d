# dtch

`dtch` runs a command in a pseudo-terminal and keeps it running when the
terminal goes away. A later `dtch attach` connects to the same named session.

- `src/` is the verified library: the wire format of requests (`protocol`),
  session names and the session table (`registry`), the replay history
  (`line_buffer`) and the receivers of output (`clients`, `output`), the relays between terminal and
  session (`relay`), and the steps by which a session is started (`start`,
  `command`, `cleanup`), served (`server`, `redraw`, `child`,
  `peer_credentials`) and attached to (`attach`, `resize`, `terminal`). Each
  step function takes how an action went and gives the next action.
- `app/` is the program around it. It performs the actions: sockets, threads,
  processes, the terminal.
- `tests/` runs the library on concrete values.

Sockets lie at `/tmp/dtch_<name>.sock`, readable and writable by their owner
only. Client and server both check that the other end runs as the same user
before anything is exchanged. Ctrl-E detaches.
