//! The configuration of the host daemon.

use crate::host::hooks::HooksConfig;
use vstd::prelude::*;

verus! {

/// Where the configuration is, unless the command line says otherwise.
pub const DEFAULT_CONFIG: &'static str = "/etc/vfio-sensor-bridge/hostd.toml";

/// The largest configuration file, in bytes.
pub const MAX_CONFIG_BYTES: u64 = 1048576;

/// The configuration of the host daemon.
#[derive(Debug)]
pub struct HostConfig {
    pub daemon: DaemonConfig,
    pub virtio: VirtioConfig,
    pub heartbeat: HeartbeatConfig,
    pub hooks: HooksConfig,
}

/// Where the daemon works.
#[derive(Debug)]
pub struct DaemonConfig {
    pub run_dir: String,
    pub device: String,
    pub log_level: String,
}

/// How agents are reached.
#[derive(Debug)]
pub struct VirtioConfig {
    pub channel_name: String,
    pub socket_template: String,
}

/// When an agent counts as away, and what happens then.
#[derive(Debug)]
pub struct HeartbeatConfig {
    pub timeout_seconds: u64,
    pub policy: String,
}

impl DaemonConfig {
    /// Whether these are the defaults.
    pub open spec fn is_default(self) -> bool {
        &&& self.run_dir@ == "/run/vfio-sensor-bridge"@
        &&& self.device@ == "/dev/vfio-sensor-bridge"@
        &&& self.log_level@ == "info"@
    }
}

impl VirtioConfig {
    /// Whether these are the defaults.
    pub open spec fn is_default(self) -> bool {
        &&& self.channel_name@ == "org.vfio_sensor_bridge.0"@
        &&& self.socket_template@ == "/run/vfio-sensor-bridge/vm-{vmid}.sock"@
    }
}

impl HeartbeatConfig {
    /// Whether these are the defaults.
    pub open spec fn is_default(self) -> bool {
        self.timeout_seconds == 30 && self.policy@ == "warn_then_remove"@
    }
}

impl Default for DaemonConfig {
    fn default() -> (config: Self)
        ensures
            config.is_default(),
    {
        DaemonConfig {
            run_dir: "/run/vfio-sensor-bridge".to_string(),
            device: "/dev/vfio-sensor-bridge".to_string(),
            log_level: "info".to_string(),
        }
    }
}

impl Default for VirtioConfig {
    fn default() -> (config: Self)
        ensures
            config.is_default(),
    {
        VirtioConfig {
            channel_name: "org.vfio_sensor_bridge.0".to_string(),
            socket_template: "/run/vfio-sensor-bridge/vm-{vmid}.sock".to_string(),
        }
    }
}

impl Default for HeartbeatConfig {
    fn default() -> (config: Self)
        ensures
            config.is_default(),
    {
        HeartbeatConfig { timeout_seconds: 30, policy: "warn_then_remove".to_string() }
    }
}

impl Default for HostConfig {
    fn default() -> (config: Self)
        ensures
            config.daemon.is_default(),
            config.virtio.is_default(),
            config.heartbeat.is_default(),
            config.hooks.is_default(),
    {
        HostConfig {
            daemon: DaemonConfig::default(),
            virtio: VirtioConfig::default(),
            heartbeat: HeartbeatConfig::default(),
            hooks: HooksConfig::default(),
        }
    }
}

/// Whether a configuration file of `bytes` bytes is small enough to be read.
pub fn config_size_ok(bytes: u64) -> (ok: bool)
    ensures
        ok == (bytes <= MAX_CONFIG_BYTES),
{
    bytes <= MAX_CONFIG_BYTES
}

/// Without a configuration the host works in its own directory under `/run`, with
/// the device of the kernel, reaches each agent at the socket of its VM, and gives
/// a silent VM up after half a minute, with a warning.
pub proof fn law_default_values(
    daemon: DaemonConfig,
    virtio: VirtioConfig,
    heartbeat: HeartbeatConfig,
    hooks: HooksConfig,
)
    requires
        daemon.is_default(),
        virtio.is_default(),
        heartbeat.is_default(),
        hooks.is_default(),
    ensures
        daemon.run_dir@ == "/run/vfio-sensor-bridge"@,
        daemon.device@ == "/dev/vfio-sensor-bridge"@,
        daemon.log_level@ == "info"@,
        virtio.channel_name@ == "org.vfio_sensor_bridge.0"@,
        virtio.socket_template@ == "/run/vfio-sensor-bridge/vm-{vmid}.sock"@,
        heartbeat.timeout_seconds == 30,
        heartbeat.policy@ == "warn_then_remove"@,
        hooks.enabled && hooks.debounce_seconds == 5 && hooks.timeout_seconds == 30,
        hooks.rule@.len() == 1,
{
}

} // verus!
