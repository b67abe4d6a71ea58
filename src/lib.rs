//! Derives reverse-proxy routing configuration from the labels of running
//! containers, and keeps a discovery cache of those containers consistent with
//! the runtime's lifecycle events.

pub mod labels;
pub mod container;
pub mod config;
pub mod synth;
pub mod cache;
pub mod events;
