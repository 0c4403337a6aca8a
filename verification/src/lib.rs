//! Data-plane packet classifier of a transparent layer-4 load balancer.
//!
//! The classifier inspects one inbound frame, looks the UDP/IPv4 destination
//! up in a table of backends and, on a hit, rewrites the destination in place
//! and asks for the frame to be redirected to the backend's interface.

pub mod checksum;
pub mod classifier;
pub mod dnat;
pub mod headers;
pub mod packet;
pub mod table;
