//! Peer path discovery, packet identification and a retaining message bus.

pub mod decimal;
pub mod endpoint;
pub mod linear_map;
pub mod packet_ident;
pub mod path_discoverer;
pub mod path_discoverer_call_laws;
pub mod peer_pd;
pub mod peer_pd_call_laws;
pub mod peer_pd_laws;
pub mod retained_bus;
pub mod retained_bus_call_laws;
pub mod retained_bus_laws;
pub mod transport;
