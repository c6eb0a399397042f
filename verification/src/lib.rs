//! Protocol engine of a streaming lighting-control viewer: the datagram codec,
//! the live tables of sources and universes, and the decisions of the
//! listener and the sender. Sockets, locks and the window live outside.

pub mod adapters;
pub mod clock;
pub mod codec;
pub mod listener;
pub mod model;
pub mod net;
pub mod sender;
pub mod state;
pub mod store_laws;
pub mod text;
