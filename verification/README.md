# lobby_server

A signalling server for peer-to-peer games. A host opens a lobby over a websocket and is told
its name; other peers join by that name and are introduced to each other; session offers,
answers and candidates are relayed between them. When the host goes, the lobby closes.

`src/` holds the rules, verified with Verus:

- `message`: what the server and the peers say to each other;
- `wire`: the JSON text of a message, and `unambiguous`: that no two messages share a text;
- `lobby`: who is in a lobby, and what joining, leaving and relaying take;
- `task`: the life of a lobby as a machine that is told what happened and says what to do next;
- `server`: the connections and the lobbies that can be joined;
- `text`: how errors read;
- `laws`: what holds of all of this, and `history`: what the members of a lobby have been told;
- `order`: the order in which members are visited;
- `outside`: what is taken from other crates.

`app/` runs the rules over axum websockets and tokio tasks. It reads the peers' JSON with serde.
