use vfio_sensor_bridge::host::hooks::{
    bounded_duration, decide_hook, gather_for, hook_command, hook_plan, merge_event, wait_step,
    HookDecision, HookRule, HookRunner, HooksConfig, TopologyEvent, WaitStep,
};
use vfio_sensor_bridge::host::vm_map::VmMap;

const SECOND: u64 = 1_000_000_000;

fn texts(list: &[&str]) -> Vec<String> {
    list.iter().map(|text| text.to_string()).collect()
}

fn event(vmid: u32, events: &[&str]) -> TopologyEvent {
    let runner = HookRunner::start(&HooksConfig::default());
    runner.notify(vmid, "vsb".to_string(), "/h/1".to_string(), 3, &texts(events)).unwrap()
}

fn rule(events: &[&str], command: &[&str]) -> HookRule {
    HookRule { events: texts(events), command: texts(command) }
}

#[test]
fn events_are_sorted_and_told_once() {
    let event = event(100, &["sensor_removed", "sensor_added", "sensor_removed"]);
    assert_eq!(event.events, ["sensor_added", "sensor_removed"]);
    assert_eq!((event.vmid, event.sensor_count), (100, 3));

    let mut config = HooksConfig::default();
    config.enabled = false;
    let runner = HookRunner::start(&config);
    assert!(runner.notify(1, String::new(), String::new(), 0, &texts(&["x"])).is_none());
}

#[test]
fn merging_loses_no_event() {
    let mut pending: VmMap<TopologyEvent> = VmMap::new();
    merge_event(&mut pending, event(100, &["sensor_removed"]));
    merge_event(&mut pending, event(7, &["device_created"]));
    let mut next = event(100, &["device_created", "sensor_removed"]);
    next.hwmon_path = "/h/2".to_string();
    next.sensor_count = 1;
    merge_event(&mut pending, next);
    assert_eq!(pending.ids(), [7, 100]);
    let merged = pending.get(100).unwrap();
    assert_eq!(merged.events, ["device_created", "sensor_removed"]);
    assert_eq!(merged.hwmon_path, "/h/2");
    assert_eq!(merged.sensor_count, 1);
}

#[test]
fn rules_pick_their_events() {
    let event = event(100, &["sensor_added"]);
    let run = |rule: &HookRule| decide_hook(rule, &event);
    assert_eq!(run(&rule(&["sensor_added"], &["/bin/true"])), HookDecision::Run);
    assert_eq!(run(&rule(&["sensor_removed"], &["/bin/true"])), HookDecision::Skip);
    assert_eq!(run(&rule(&["sensor_added"], &[])), HookDecision::Skip);
    assert_eq!(run(&rule(&["sensor_added"], &["true"])), HookDecision::Reject);
}

#[test]
fn all_rules_are_tried_in_order() {
    let mut config = HooksConfig::default();
    config.rule = vec![
        rule(&["sensor_added"], &["/bin/false"]),
        rule(&["vm_offline"], &["/bin/true"]),
        rule(&["sensor_added"], &["true"]),
        rule(&["sensor_added"], &[]),
        rule(&["vm_offline", "sensor_added"], &["/bin/false"]),
        rule(&["sensor_added", "device_created"], &["/bin/true"]),
    ];
    assert_eq!(
        hook_plan(&config, &event(100, &["device_created", "sensor_added"])),
        [
            (0, HookDecision::Run),
            (2, HookDecision::Reject),
            (4, HookDecision::Run),
            (5, HookDecision::Run),
        ]
    );
    assert_eq!(hook_plan(&config, &event(100, &["sensor_removed"])), []);
    config.rule.clear();
    assert_eq!(hook_plan(&config, &event(100, &["sensor_added"])), []);
}

#[test]
fn commands_get_the_event_in_their_environment() {
    let event = event(100, &["sensor_removed", "sensor_added"]);
    let command = hook_command(&rule(&[], &["/usr/bin/logger", "-t", "vsb"]), &event);
    assert_eq!(command.program, "/usr/bin/logger");
    assert_eq!(command.args, ["-t", "vsb"]);
    let env: Vec<(&str, &str)> =
        command.env.iter().map(|(key, value)| (key.as_str(), value.as_str())).collect();
    assert_eq!(
        env,
        [
            ("PATH", "/usr/sbin:/usr/bin:/sbin:/bin"),
            ("VSB_EVENTS", "sensor_added,sensor_removed"),
            ("VSB_VMID", "100"),
            ("VSB_HWMON_NAME", "vsb"),
            ("VSB_HWMON_PATH", "/h/1"),
            ("VSB_SENSOR_COUNT", "3"),
        ]
    );
}

#[test]
fn delays_are_bounded() {
    assert_eq!(bounded_duration(0), 1);
    assert_eq!(bounded_duration(5), 5);
    assert_eq!(bounded_duration(301), 300);
    assert_eq!(gather_for(10, 4), Some(6));
    assert_eq!(gather_for(10, 10), None);
    assert_eq!(gather_for(10, 11), None);
}

#[test]
fn processes_are_waited_for() {
    assert_eq!(wait_step(Some(true), 0, SECOND), WaitStep::Done);
    assert_eq!(wait_step(Some(false), SECOND, 0), WaitStep::Failed);
    assert_eq!(wait_step(None, SECOND, SECOND), WaitStep::TimedOut);
    assert_eq!(wait_step(None, SECOND, SECOND - 1), WaitStep::Sleep);
}

#[test]
fn the_default_rule_restarts_fan_control() {
    let config = HooksConfig::default();
    assert!(config.enabled);
    assert_eq!((config.debounce_seconds, config.timeout_seconds), (5, 30));
    assert_eq!(config.rule.len(), 1);
    assert_eq!(config.rule[0].command, ["/usr/bin/systemctl", "restart", "fancontrol.service"]);
    assert_eq!(
        config.rule[0].events,
        [
            "device_created",
            "device_removed",
            "sensor_added",
            "sensor_removed",
            "sensor_changed",
            "vm_offline",
        ]
    );
}
