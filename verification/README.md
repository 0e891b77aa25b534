# tspchat

A peer-to-peer chat for a local network. Peers announce themselves by UDP
broadcast and talk over TCP; a terminal interface lists the peers and their
chats.

- `src/` is the verified library:
  - `protocol` — the announcement datagram, packet tags and statuses;
  - `network` — the registry of open connections, and in `connection` the
    framing of packets on a TCP stream;
  - `peer` — the peers heard from, and the removal of stale ones;
  - `ui` — the interface state and how network events and key presses
    change it, with what the screen shows of it;
  - `nickmap` — the map keyed by nickname that the others are built on;
  - `text`, `logger`, `startup` — string helpers, the log line format, and
    the reading of the chat port and the session id.
- `app/` is the program around it: sockets, the terminal, the log file and
  the event loop.
- `tests/` exercise the library on concrete values.
