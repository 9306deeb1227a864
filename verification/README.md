# terraria_server

A Terraria server library, verified with Verus.

- `src/binary`: little-endian numbers, 7-bit-group lengths, strings and texts, with
  readers and writers whose contracts are stated over byte sequences, and the laws
  that reading gives back what writing wrote.
- `src/world`: the world file format: metadata, the format table, the header, tiles
  and their run-length encoding, chests, signs, NPCs, tile entities, pressure plates,
  rooms, the bestiary, creative powers and the footer; each reader is proved to return
  what the format spec functions say, or the error they say.
- `src/network`: protocol messages and their frames, the world header message, tile
  section messages (compressed with flate2), and the server's state machine: client
  slots, the join handshake (up to the world header, the sections around the spawn
  point and the requested point, and the kill counts that a spawn request is answered
  with), and what each client message changes, answers and relays.
- `app/main.rs`: the program: reads a world file, listens on TCP with tokio, and runs
  the state machine for each connection.
- `tests/`: tests on concrete values.
