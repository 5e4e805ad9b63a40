# lowertier

The peer layer of a mesh network, as a Verus library: sessions between peers,
their datagrams, the relay of packets through other peers, and the routes that
are chosen. What a function of the library does is stated in its contract and
proved, as far as it depends on its arguments. Where a random number, the hidden
state of a noise handshake or a function of an outside crate decides, the
contract fixes what goes in and what is done with what comes out; the few
contracts of outside functions are believed, and each says so where it stands.

- `src/`: the library.
  - `replay_model`, `replay_window`, `datagram_replay`, `secure_datagram`:
    datagrams that are sealed once and accepted once.
  - `peer_session`, `session_store`, `initiator_store`, `initiator_records`,
    `responder_store`, `responder_recovery`, `session_eviction`, `store_laws`:
    sessions, and the transitions that both sides have to agree on.
  - `noise`, `relay_wire`, `relay_auth`, `relay_queue`, `relay_peer`,
    `relay_dial`, `relay_handshake`, `relay_exchange`, `relay_initiator`,
    `relay_confirmation`, `relay_send`, `relay_batch`, `relay_open`,
    `relay_peer_map`: handshakes and data through a relay.
  - `receiver_pacing`, `probe_wire`, `probe_budget`, `speed_probe`: how fast a
    receiver can be fed.
  - `ip_prefix`, `prefix_table`, `flow_table`, `service_route`,
    `service_route_store`: routes to services behind gateways.
  - `route_trait`, `forwarding_table`, `forwarding_snapshot`, `publish_hook`,
    `snapshot_store`: forwarding decisions and how they are published.
  - `rpc_service`: who may manage a node.
  - `bytes`, `clock`, `code_table`, `key_table`, `packet`, `session_types`,
    `outside`: what the others build on.
- `tests/`: tests of the library.
- `app/`: locks, clocks, tasks and outside traits around the library.

A step that needs a cipher, a clock, a socket or a decoded message takes what it
needs as an argument, and says what to do next in its result. `app/` performs it.
