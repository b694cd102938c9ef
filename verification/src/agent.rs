//! The agent: it runs inside a virtual machine, finds its sensors and sends
//! their readings to the host.

pub mod cli;
pub mod cli_laws;
pub mod config;
pub mod config_edit;
pub mod discover;
pub mod disk_laws;
pub mod disks;
pub mod edit_laws;
pub mod glob;
pub mod hba;
pub mod label;
pub mod laws;
pub mod schedule;
pub mod sensor_id;
pub mod sensors;
pub mod smartctl;
pub mod toml_doc;
