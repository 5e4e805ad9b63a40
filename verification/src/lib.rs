//! Peer layer of the lowertier mesh: replay protection, datagram sessions,
//! session transitions, relay decisions, route snapshots and probes.

pub mod bytes;
pub mod clock;
pub mod code_table;
pub mod datagram_laws;
pub mod datagram_replay;
pub mod flow_table;
pub mod forwarding_snapshot;
pub mod forwarding_table;
pub mod handshake_laws;
pub mod initiator_records;
pub mod initiator_store;
pub mod ip_prefix;
pub mod key_table;
pub mod noise;
pub mod operation_laws;
pub mod outside;
pub mod packet;
pub mod peer_session;
pub mod prefix_table;
pub mod probe_budget;
pub mod probe_wire;
pub mod publish_hook;
pub mod receiver_pacing;
pub mod relay_auth;
pub mod relay_batch;
pub mod relay_confirmation;
pub mod relay_dial;
pub mod relay_exchange;
pub mod relay_handshake;
pub mod relay_initiator;
pub mod relay_laws;
pub mod relay_open;
pub mod relay_peer;
pub mod relay_peer_map;
pub mod relay_queue;
pub mod relay_send;
pub mod relay_wire;
pub mod replay_model;
pub mod replay_window;
pub mod responder_recovery;
pub mod responder_store;
pub mod route_laws;
pub mod route_trait;
pub mod rpc_service;
pub mod secure_datagram;
pub mod service_route;
pub mod service_route_store;
pub mod session_eviction;
pub mod session_store;
pub mod session_types;
pub mod snapshot_store;
pub mod speed_probe;
pub mod store_laws;
pub mod transition_laws;
