//! The host daemon: it listens to the agents of the virtual machines and
//! registers their sensors with the kernel.

pub mod config;
pub mod daemon;
pub mod hooks;
pub mod kernel;
pub mod laws;
pub mod presence;
pub mod runtime;
pub mod state;
pub mod status;
pub mod vm_map;
