use vfio_sensor_bridge::agent::cli::{
    is_help_arg, parse_add_options, parse_agent_command, parse_bool, parse_count,
    parse_hba_options, parse_init_options, parse_integer, parse_place, parse_remove_options,
    parse_run_config, parse_seconds, parse_set_options, parse_smartctl_options, run_config,
    split_config_path, split_csv, AgentCommand, CliError, ConfigCommand, Options,
    PersistentCommand,
};

fn args(list: &[&str]) -> Vec<String> {
    list.iter().map(|arg| arg.to_string()).collect()
}

fn config(list: &[&str]) -> ConfigCommand {
    run_config(&args(list)).unwrap().1
}

fn config_fault(list: &[&str]) -> String {
    match run_config(&args(list)) {
        Err(error) => error.message(),
        Ok(_) => panic!("an error was expected"),
    }
}

#[test]
fn the_agent_runs_by_default() {
    let path = "/etc/vfio-sensor-bridge/agent.toml";
    assert!(matches!(parse_agent_command(&[]), Ok(AgentCommand::Run(p)) if p == path));
    assert!(matches!(parse_agent_command(&args(&["run"])), Ok(AgentCommand::Run(p)) if p == path));
    assert!(matches!(
        parse_agent_command(&args(&["/tmp/a.toml", "ignored"])),
        Ok(AgentCommand::Run(p)) if p == "/tmp/a.toml"
    ));
    assert!(matches!(
        parse_agent_command(&args(&["run", "--config", "/tmp/b.toml"])),
        Ok(AgentCommand::Run(p)) if p == "/tmp/b.toml"
    ));
    assert!(matches!(parse_agent_command(&args(&["-h"])), Ok(AgentCommand::Usage)));
    assert!(matches!(parse_agent_command(&args(&["run", "--help"])), Ok(AgentCommand::RunUsage)));
    assert!(matches!(
        parse_agent_command(&args(&["--probe-hba"])),
        Ok(AgentCommand::ProbeHba(p)) if p == path
    ));
    assert!(matches!(
        parse_agent_command(&args(&["--probe-smartctl", "/tmp/c.toml"])),
        Ok(AgentCommand::ProbeSmartctl(p)) if p == "/tmp/c.toml"
    ));
    assert!(matches!(
        parse_agent_command(&args(&["config", "show"])),
        Ok(AgentCommand::Config(p, ConfigCommand::Show)) if p == path
    ));
    let extra = parse_agent_command(&args(&["run", "fast"]));
    assert!(matches!(extra, Err(error) if error.message() == "unexpected run argument: fast"));
}

#[test]
fn configuration_commands_are_told_apart() {
    assert!(matches!(config(&[]), ConfigCommand::Usage));
    assert!(matches!(config(&["--help"]), ConfigCommand::Usage));
    assert!(matches!(config(&["validate"]), ConfigCommand::Validate));
    assert!(matches!(config(&["init"]), ConfigCommand::Init { force: false }));
    assert!(matches!(config(&["init", "--force"]), ConfigCommand::Init { force: true }));
    assert!(matches!(config(&["init", "-h"]), ConfigCommand::Usage));
    assert_eq!(config_fault(&["init", "now"]), "unknown init option: now");
    assert_eq!(config_fault(&["drop"]), "unknown config command: drop");
    assert_eq!(config_fault(&["show", "--config"]), "--config requires PATH");
    let (path, command) = run_config(&args(&["--config", "/tmp/a", "show"])).unwrap();
    assert_eq!(path, "/tmp/a");
    assert!(matches!(command, ConfigCommand::Show));
}

#[test]
fn options_are_read() {
    match config(&["set", "--scan-root", "/sys", "--sample-seconds", "2", "--rescan-seconds", "9"]) {
        ConfigCommand::SetAgent(set) => {
            assert_eq!(set.scan_root.as_deref(), Some("/sys"));
            assert_eq!(set.sample_seconds, Some(2));
            assert_eq!(set.heartbeat_seconds, None);
            assert_eq!(set.rescan_seconds, Some(9));
        }
        _ => panic!("settings were expected"),
    }
    match config(&["hba", "--enabled", "on", "--devices", "/dev/a, ,/dev/b", "--max-ioc", "3"]) {
        ConfigCommand::Hba(set) => {
            assert_eq!(set.enabled, Some(true));
            assert_eq!(set.devices, Some(args(&["/dev/a", "/dev/b"])));
            assert_eq!(set.max_ioc, Some(3));
        }
        _ => panic!("settings were expected"),
    }
    match config(&["smartctl", "--enabled", "no", "--device-globs", "/dev/sd*", "--timeout-seconds", "4", "--poll-seconds", "5"]) {
        ConfigCommand::Smartctl(set) => {
            assert_eq!(set.enabled, Some(false));
            assert_eq!(set.device_globs, Some(args(&["/dev/sd*"])));
            assert_eq!(set.timeout_seconds, Some(4));
            assert_eq!(set.poll_seconds, Some(5));
        }
        _ => panic!("settings were expected"),
    }
    assert_eq!(config_fault(&["set", "--speed", "1"]), "unknown set option: --speed");
    assert_eq!(config_fault(&["set", "--scan-root"]), "--scan-root requires a value");
    assert_eq!(config_fault(&["set", "--sample-seconds", "0"]), "value must be greater than zero");
    assert_eq!(config_fault(&["hba", "--enabled", "maybe"]), "invalid bool: maybe");
    assert_eq!(config_fault(&["hba", "--size", "1"]), "unknown hba option: --size");
    assert_eq!(config_fault(&["smartctl", "x"]), "unknown smartctl option: x");
    assert!(run_config(&args(&["set", "--sample-seconds", "soon"])).is_err());
}

#[test]
fn persistent_commands_are_read() {
    let persistent = |list: &[&str]| match config(list) {
        ConfigCommand::Persistent(command) => command,
        _ => panic!("a persistent command was expected"),
    };
    assert!(matches!(persistent(&["persistent", "list"]), PersistentCommand::List));
    assert!(matches!(persistent(&["persistent", "discover"]), PersistentCommand::Discover));
    match persistent(&["persistent", "add", "--from", "2", "--default-value", "-7"]) {
        PersistentCommand::Add(add) => assert_eq!((add.from, add.default_value), (2, -7)),
        _ => panic!("an addition was expected"),
    }
    assert!(matches!(
        persistent(&["persistent", "remove", "--id", "gpu"]),
        PersistentCommand::Remove(id) if id == "gpu"
    ));
    assert_eq!(config_fault(&["persistent", "add", "--from", "2"]), "persistent add requires --default-value VALUE");
    assert_eq!(config_fault(&["persistent", "add", "--default-value", "2"]), "persistent add requires --from N");
    assert_eq!(config_fault(&["persistent", "add", "--to", "2"]), "unknown persistent add option: --to");
    assert_eq!(config_fault(&["persistent", "remove"]), "persistent remove requires --id ID");
    assert_eq!(config_fault(&["persistent", "remove", "gpu"]), "unknown persistent remove option: gpu");
    assert_eq!(config_fault(&["persistent", "rename"]), "unknown persistent command: rename");
}

#[test]
fn help_wins_where_it_comes_first() {
    assert!(is_help_arg("-h") && is_help_arg("--help") && !is_help_arg("help"));
    assert!(matches!(parse_set_options(&args(&["-h", "--speed"])), Ok(Options::Help)));
    assert!(matches!(parse_hba_options(&args(&["--help"])), Ok(Options::Help)));
    assert!(matches!(parse_smartctl_options(&args(&["--help"])), Ok(Options::Help)));
    assert!(matches!(parse_add_options(&args(&["--help"])), Ok(Options::Help)));
    assert!(matches!(parse_remove_options(&args(&["--help"])), Ok(Options::Help)));
    assert!(matches!(parse_init_options(&args(&["--force", "-h"])), Ok(Options::Help)));
    assert!(matches!(parse_set_options(&args(&["--speed", "-h"])), Err(CliError::UnknownOption(_, _))));
    assert!(matches!(parse_run_config(&args(&["x", "-h"])), Ok(Options::Help)));
}

#[test]
fn values_are_read() {
    for yes in ["true", "1", "yes", "on"] {
        assert!(matches!(parse_bool(yes), Ok(true)));
    }
    for no in ["false", "0", "no", "off"] {
        assert!(matches!(parse_bool(no), Ok(false)));
    }
    assert!(parse_bool("True").is_err());
    assert!(matches!(parse_seconds("18446744073709551615"), Ok(u64::MAX)));
    assert!(parse_seconds("18446744073709551616").is_err());
    assert!(matches!(parse_seconds("+5"), Ok(5)));
    assert!(parse_seconds("-5").is_err());
    assert!(matches!(parse_count("4294967295"), Ok(u32::MAX)));
    assert!(parse_count("4294967296").is_err());
    assert!(matches!(parse_place("0"), Err(CliError::Zero)));
    assert!(matches!(parse_integer("-9223372036854775808"), Ok(i64::MIN)));
    assert!(parse_integer("9223372036854775808").is_err());
    assert_eq!(split_csv(" a ,,b,"), ["a", "b"]);
    assert_eq!(split_csv(" , "), Vec::<String>::new());
    let (path, rest) = split_config_path(&args(&["a", "--config", "x", "b", "--config", "y"])).unwrap();
    assert_eq!(path, "y");
    assert_eq!(rest, ["a", "b"]);
}
