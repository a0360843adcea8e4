//! The decisions of a vhost-user network backend: its parameters, the features it offers, the
//! copying of frames between a tap device and guest memory, and what it does on each event.
pub mod abi;
pub mod foreign;
pub mod guest;
pub mod ipv4;
pub mod multi_queue;
pub mod params;
pub mod rx;
pub mod single_queue;
pub mod tx;
