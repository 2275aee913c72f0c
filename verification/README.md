# craft_worker

A Minecraft Java server hosted in a Cloudflare Durable Object, with the
logic that decides what happens to a connection and to the world verified
with Verus.

- `src/varint.rs`: the VarInt encoding, its reader, and the proof that a
  written value reads back.
- `src/handshake.rs`: handshake packets, packet framing, the buffer of a
  connection's bytes, and the state machine of the server-list exchange.
- `src/settings.rs`: the operator settings read from the environment.
- `src/config.rs`: the server configuration that the settings give.
- `src/world.rs`: the object's lifecycle, connection admission and counting,
  the checkpoint and reconnect-window decisions after the last connection
  leaves, and the status and server-list reports.
- `src/persist.rs`: which storage rows a checkpoint writes and removes.
- `src/routes.rs`: the Worker's HTTP routes.
- `app/`: the Worker and the Durable Object: sockets, timers, promises,
  storage, the Pumpkin server and the platform calls, each driven by what the
  library decides.
