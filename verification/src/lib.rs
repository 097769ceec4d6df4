//! Userspace logic of the UprobeStats daemon.
use vstd::prelude::*;

pub mod atom;
pub mod bpf_handler;
pub mod bpf_map;
pub mod error;
pub mod offsets_retry;
pub mod platform;
pub mod registry;
pub mod bridge_service;
pub mod config;
pub mod config_resolver;
pub mod string;
pub mod task;
pub mod telemetry;
pub mod timer;

verus! {

} // verus!
