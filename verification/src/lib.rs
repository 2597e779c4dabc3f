//! Peer-to-peer video streaming over a mesh: the decisions behind stream
//! discovery, mesh shaping, task bookkeeping and the WebRTC signalling
//! exchange, with their contracts.
pub mod app;
pub mod join_map;
pub mod stream;
pub mod utils;
