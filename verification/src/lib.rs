//! Message handling for an OSC-driven text display: which incoming OSC
//! messages become display events, how colors are recognised, and how the
//! persisted settings are kept and updated.

pub mod color;
pub mod config;
pub mod datagram;
pub mod event;
pub mod f32_bits;
pub mod float_cast;
pub mod osc;
