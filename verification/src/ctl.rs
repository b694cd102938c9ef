//! The management tool: it attaches VMs to the bridge and shows its state.

pub mod cli;
pub mod laws;
pub mod qm;
pub mod smoke;
pub mod status;
