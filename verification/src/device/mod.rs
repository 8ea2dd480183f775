//! The Bloomin8 Canvas LAN protocol: message types, the client's settings and
//! the decisions it takes around each request, and the BLE wake selection.

pub mod client;
pub mod error;
pub mod types;
pub mod wake;
