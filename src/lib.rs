//! Verified core of a client for the Janus WebRTC gateway: the wire
//! identifiers and the error taxonomy, the decoding of inbound frames and the
//! envelopes of outbound requests, the bounded awaitable map, the router, the
//! transaction correlator, the decisions of the receive loop and of a
//! handle's lifecycle, and the decoders of plugin events.
pub mod audio_bridge;
pub mod config;
pub mod correlator;
pub mod decode;
pub mod error;
pub mod frame;
pub mod graph;
pub mod janus_id;
pub mod json;
pub mod legacy_video_room;
pub mod multiplex;
pub mod napmap;
pub mod protocol;
pub mod request;
pub mod router;
pub mod streaming;
pub mod text;

