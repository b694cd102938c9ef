//! Commands that the host runs when devices and sensors come and go. Events
//! are gathered per VM for a while before the commands run.

use crate::host::vm_map::VmMap;
use crate::number::{decimal, format_u64};
use crate::text::{
    has_prefix, join, joined, lemma_text_less_total, lemma_text_less_transitive, less,
    list_contains, same, starts_with, text_less, texts,
};
use crate::time::lookup;
use vstd::prelude::*;

verus! {

/// The longest time, in seconds, that events are gathered or a hook may run.
pub const MAX_HOOK_DELAY_SECONDS: u64 = 300;

/// A command, and the events on which it runs.
#[derive(Debug)]
pub struct HookRule {
    pub events: Vec<String>,
    pub command: Vec<String>,
}

/// What the hooks are configured to do.
#[derive(Debug)]
pub struct HooksConfig {
    pub enabled: bool,
    /// How long events are gathered.
    pub debounce_seconds: u64,
    /// How long a hook may run.
    pub timeout_seconds: u64,
    pub rule: Vec<HookRule>,
}

impl HooksConfig {
    /// Whether these are the defaults.
    pub open spec fn is_default(self) -> bool {
        &&& self.enabled
        &&& self.debounce_seconds == 5
        &&& self.timeout_seconds == 30
        &&& self.rule@.len() == 1
        &&& texts(self.rule@[0].events@) == seq![
            "device_created"@,
            "device_removed"@,
            "sensor_added"@,
            "sensor_removed"@,
            "sensor_changed"@,
            "vm_offline"@,
        ]
        &&& texts(self.rule@[0].command@) == seq![
            "/usr/bin/systemctl"@,
            "restart"@,
            "fancontrol.service"@,
        ]
    }
}

impl Default for HooksConfig {
    fn default() -> (config: Self)
        ensures
            config.is_default(),
    {
        let mut events: Vec<String> = Vec::new();
        events.push("device_created".to_string());
        events.push("device_removed".to_string());
        events.push("sensor_added".to_string());
        events.push("sensor_removed".to_string());
        events.push("sensor_changed".to_string());
        events.push("vm_offline".to_string());
        let mut command: Vec<String> = Vec::new();
        command.push("/usr/bin/systemctl".to_string());
        command.push("restart".to_string());
        command.push("fancontrol.service".to_string());
        let mut rule: Vec<HookRule> = Vec::new();
        rule.push(HookRule { events, command });
        assert(texts(rule@[0].events@) =~= seq![
            "device_created"@,
            "device_removed"@,
            "sensor_added"@,
            "sensor_removed"@,
            "sensor_changed"@,
            "vm_offline"@,
        ]);
        assert(texts(rule@[0].command@) =~= seq![
            "/usr/bin/systemctl"@,
            "restart"@,
            "fancontrol.service"@,
        ]);
        HooksConfig { enabled: true, debounce_seconds: 5, timeout_seconds: 30, rule }
    }
}

// ── Events ───────────────────────────────────────────────────────────────────

/// Whether texts ascend, each before the next.
pub open spec fn ascending_texts(items: Seq<Seq<char>>) -> bool {
    forall|i: int, j: int|
        0 <= i < j < items.len() ==> text_less(#[trigger] items[i], #[trigger] items[j])
}

/// What happened to a VM. The events are a set, kept in alphabetical order.
#[derive(Debug)]
pub struct TopologyEvent {
    pub events: Vec<String>,
    pub vmid: u32,
    pub hwmon_name: String,
    pub hwmon_path: String,
    pub sensor_count: usize,
}

/// What happened to a VM, as mathematical values.
#[verifier::ext_equal]
pub struct EventView {
    pub events: Seq<Seq<char>>,
    pub vmid: u32,
    pub hwmon_name: Seq<char>,
    pub hwmon_path: Seq<char>,
    pub sensor_count: usize,
}

impl View for TopologyEvent {
    type V = EventView;

    open spec fn view(&self) -> EventView {
        EventView {
            events: texts(self.events@),
            vmid: self.vmid,
            hwmon_name: self.hwmon_name@,
            hwmon_path: self.hwmon_path@,
            sensor_count: self.sensor_count,
        }
    }
}

/// Adds `item` to a set of texts.
fn add_event(items: &mut Vec<String>, item: String)
    requires
        ascending_texts(texts(old(items)@)),
    ensures
        ascending_texts(texts(final(items)@)),
        forall|text: Seq<char>| #[trigger]
            texts(final(items)@).contains(text) <==> texts(old(items)@).contains(text) || text
                == item@,
{
    let ghost before = texts(items@);
    let ghost fresh = item@;
    let mut at: usize = 0;
    while at < items.len() && less(&items[at], &item)
        invariant
            texts(items@) == before,
            ascending_texts(before),
            fresh == item@,
            at <= items@.len(),
            forall|k: int| 0 <= k < at ==> text_less(#[trigger] before[k], fresh),
        decreases items@.len() - at,
    {
        assert(before[at as int] == items@[at as int]@);
        at = at + 1;
    }
    if at < items.len() && same(&items[at], &item) {
        assert(before[at as int] == fresh);
        return;
    }
    proof {
        if at < before.len() {
            assert(before[at as int] == items@[at as int]@);
            lemma_text_less_total(before[at as int], fresh);
        }
    }
    let ghost old_items = items@;
    items.insert(at, item);
    proof {
        let after = texts(items@);
        assert(after =~= before.insert(at as int, fresh));
        assert forall|i: int, j: int| 0 <= i < j < after.len() implies text_less(
            #[trigger] after[i],
            #[trigger] after[j],
        ) by {
            let a = if i < at {
                i
            } else {
                i - 1
            };
            let b = if j < at {
                j
            } else {
                j - 1
            };
            if i != at && j != at {
                assert(after[i] == before[a] && after[j] == before[b]);
            } else if i == at {
                assert(after[j] == before[b]);
                if b > at {
                    assert(text_less(before[at as int], before[b]));
                    lemma_text_less_transitive(fresh, before[at as int], before[b]);
                }
            } else {
                assert(after[i] == before[a]);
            }
        }
        assert forall|text: Seq<char>| #[trigger] after.contains(text) <==> before.contains(text)
            || text == fresh by {
            if after.contains(text) {
                let i = choose|i: int| 0 <= i < after.len() && after[i] == text;
                if i < at {
                    assert(before[i] == text);
                } else if i > at {
                    assert(before[i - 1] == text);
                }
            }
            if before.contains(text) {
                let i = choose|i: int| 0 <= i < before.len() && before[i] == text;
                if i < at {
                    assert(after[i] == text);
                } else {
                    assert(after[i + 1] == text);
                }
            }
            assert(after[at as int] == fresh);
        }
    }
}

/// Adds all of `more` to a set of texts.
fn add_events(items: &mut Vec<String>, more: &[String])
    requires
        ascending_texts(texts(old(items)@)),
    ensures
        ascending_texts(texts(final(items)@)),
        forall|text: Seq<char>| #[trigger]
            texts(final(items)@).contains(text) <==> texts(old(items)@).contains(text) || texts(
                more@,
            ).contains(text),
{
    let ghost before = texts(items@);
    for i in 0..more.len()
        invariant
            ascending_texts(texts(items@)),
            forall|text: Seq<char>| #[trigger]
                texts(items@).contains(text) <==> before.contains(text) || texts(more@).take(
                    i as int,
                ).contains(text),
    {
        add_event(items, more[i].clone());
        proof {
            let taken = texts(more@).take(i as int);
            let next = texts(more@).take(i as int + 1);
            assert(next =~= taken.push(more@[i as int]@));
            assert forall|text: Seq<char>| next.contains(text) <==> taken.contains(text) || text
                == more@[i as int]@ by {
                if taken.contains(text) {
                    let k = choose|k: int| 0 <= k < taken.len() && taken[k] == text;
                    assert(next[k] == text);
                }
                assert(next[i as int] == more@[i as int]@);
            }
        }
    }
    assert(texts(more@).take(more@.len() as int) =~= texts(more@));
}

/// Tells the hooks what happened.
#[derive(Debug)]
pub struct HookRunner {
    pub enabled: bool,
}

impl HookRunner {
    /// Hooks as configured.
    pub fn start(config: &HooksConfig) -> (runner: Self)
        ensures
            runner.enabled == config.enabled,
    {
        HookRunner { enabled: config.enabled }
    }

    /// What to queue after something happened to a VM; nothing where hooks are
    /// off.
    pub fn notify(
        &self,
        vmid: u32,
        hwmon_name: String,
        hwmon_path: String,
        sensor_count: usize,
        events: &[String],
    ) -> (event: Option<TopologyEvent>)
        ensures
            event is Some == self.enabled,
            event matches Some(event) ==> {
                &&& event.vmid == vmid
                &&& event.hwmon_name@ == hwmon_name@
                &&& event.hwmon_path@ == hwmon_path@
                &&& event.sensor_count == sensor_count
                &&& ascending_texts(event@.events)
                &&& forall|text: Seq<char>| #[trigger]
                    event@.events.contains(text) <==> texts(events@).contains(text)
            },
    {
        if !self.enabled {
            return None;
        }
        let mut set: Vec<String> = Vec::new();
        assert forall|text: Seq<char>| !texts(set@).contains(text) by {
            assert(texts(set@).len() == 0);
        }
        add_events(&mut set, events);
        Some(TopologyEvent { events: set, vmid, hwmon_name, hwmon_path, sensor_count })
    }
}

/// Whether every gathered event stands under its VM, in order.
pub open spec fn gathered(pending: Map<u32, EventView>) -> bool {
    forall|vmid: u32| #[trigger]
        pending.contains_key(vmid) ==> pending[vmid].vmid == vmid && ascending_texts(
            pending[vmid].events,
        )
}

/// Whether `merged` is what `prior` and `next` come to: the events of both, and
/// the device as `next` has it.
pub open spec fn merges(prior: Option<EventView>, next: EventView, merged: EventView) -> bool {
    match prior {
        None => merged == next,
        Some(prior) => {
            &&& merged.vmid == prior.vmid
            &&& merged.hwmon_name == next.hwmon_name
            &&& merged.hwmon_path == next.hwmon_path
            &&& merged.sensor_count == next.sensor_count
            &&& ascending_texts(merged.events)
            &&& forall|text: Seq<char>| #[trigger]
                merged.events.contains(text) <==> prior.events.contains(text)
                    || next.events.contains(text)
        },
    }
}

/// Adds an event to those that were gathered.
pub fn merge_event(pending: &mut VmMap<TopologyEvent>, next: TopologyEvent)
    requires
        gathered(old(pending)@),
        ascending_texts(next@.events),
    ensures
        gathered(final(pending)@),
        final(pending)@.contains_key(next.vmid),
        merges(lookup(old(pending)@, next.vmid), next@, final(pending)@[next.vmid]),
        final(pending)@.remove(next.vmid) == old(pending)@.remove(next.vmid),
{
    let ghost before = pending@;
    let ghost fresh = next@;
    let vmid = next.vmid;
    match pending.remove(vmid) {
        Some(event) => {
            let mut event = event;
            let ghost prior = event@;
            add_events(&mut event.events, &next.events);
            event.hwmon_name = next.hwmon_name;
            event.hwmon_path = next.hwmon_path;
            event.sensor_count = next.sensor_count;
            pending.insert(vmid, event);
        },
        None => {
            pending.insert(vmid, next);
        },
    }
    proof {
        assert(pending@.remove(vmid) =~= before.remove(vmid));
        assert forall|id: u32| #[trigger] pending@.contains_key(id) implies pending@[id].vmid == id
            && ascending_texts(pending@[id].events) by {
            if id != vmid {
                assert(before.contains_key(id));
            }
        }
    }
}

// ── Running ──────────────────────────────────────────────────────────────────

/// What a rule does about an event.
#[derive(Clone, Copy, Debug, PartialEq, Eq, Structural)]
pub enum HookDecision {
    /// Nothing: it has no command, or none of its events happened.
    Skip,
    /// Nothing but a complaint: its command is no absolute path.
    Reject,
    /// It runs its command.
    Run,
}

/// Whether two lists have a text in common.
pub open spec fn overlap(a: Seq<Seq<char>>, b: Seq<Seq<char>>) -> bool {
    exists|i: int| 0 <= i < a.len() && b.contains(#[trigger] a[i])
}

/// What a rule does about some events.
pub open spec fn hook_decision(
    rule_events: Seq<Seq<char>>,
    command: Seq<Seq<char>>,
    events: Seq<Seq<char>>,
) -> HookDecision {
    if command.len() == 0 || !overlap(rule_events, events) {
        HookDecision::Skip
    } else if !has_prefix(command[0], "/"@) {
        HookDecision::Reject
    } else {
        HookDecision::Run
    }
}

/// What a rule does about an event.
pub fn decide_hook(rule: &HookRule, event: &TopologyEvent) -> (decision: HookDecision)
    ensures
        decision == hook_decision(texts(rule.events@), texts(rule.command@), event@.events),
{
    if rule.command.len() == 0 {
        return HookDecision::Skip;
    }
    let mut found = false;
    for i in 0..rule.events.len()
        invariant
            found ==> overlap(texts(rule.events@), event@.events),
            !found ==> forall|j: int|
                0 <= j < i ==> !event@.events.contains(#[trigger] texts(rule.events@)[j]),
    {
        assert(texts(rule.events@)[i as int] == rule.events@[i as int]@);
        if list_contains(&event.events, &rule.events[i]) {
            found = true;
        }
    }
    if !found {
        return HookDecision::Skip;
    }
    assert(texts(rule.command@)[0] == rule.command@[0]@);
    if !starts_with(&rule.command[0], "/") {
        return HookDecision::Reject;
    }
    HookDecision::Run
}

/// What a rule does about some events.
pub open spec fn rule_decision(rule: HookRule, events: Seq<Seq<char>>) -> HookDecision {
    hook_decision(texts(rule.events@), texts(rule.command@), events)
}

/// What the first `n` rules do about some events: the places of those that do
/// anything, in order, each with what it does.
pub open spec fn planned(rules: Seq<HookRule>, events: Seq<Seq<char>>, n: int) -> Seq<
    (usize, HookDecision),
>
    decreases n,
{
    if n <= 0 {
        Seq::empty()
    } else {
        let before = planned(rules, events, n - 1);
        let decision = rule_decision(rules[n - 1], events);
        if decision == HookDecision::Skip {
            before
        } else {
            before.push(((n - 1) as usize, decision))
        }
    }
}

/// What all rules do about an event, before any of their commands has run: the
/// places of those that do anything, in order, each with what it does.
pub fn hook_plan(config: &HooksConfig, event: &TopologyEvent) -> (plan: Vec<(usize, HookDecision)>)
    ensures
        plan@ == planned(config.rule@, event@.events, config.rule@.len() as int),
{
    let mut plan: Vec<(usize, HookDecision)> = Vec::new();
    for i in 0..config.rule.len()
        invariant
            plan@ == planned(config.rule@, event@.events, i as int),
    {
        let decision = decide_hook(&config.rule[i], event);
        if decision != HookDecision::Skip {
            plan.push((i, decision));
        }
    }
    plan
}

/// Each rule that does anything about some events stands in the plan once, with
/// what it does, in the order of the rules, whatever the others come to; no
/// other stands there.
pub proof fn law_plan_takes_each_rule_once(rules: Seq<HookRule>, events: Seq<Seq<char>>)
    requires
        rules.len() <= usize::MAX,
    ensures
        ({
            let plan = planned(rules, events, rules.len() as int);
            &&& forall|i: int, j: int|
                0 <= i < j < plan.len() ==> (#[trigger] plan[i]).0 < (#[trigger] plan[j]).0
            &&& forall|place: usize, decision: HookDecision| #[trigger]
                plan.contains((place, decision)) <==> place < rules.len() && decision
                    == rule_decision(rules[place as int], events) && decision != HookDecision::Skip
        }),
{
    lemma_planned(rules, events, rules.len() as int);
}

/// A command is run for a rule if and only if the rule has one, with an absolute
/// path, and one of its events happened.
pub proof fn law_plan_runs_commands(rules: Seq<HookRule>, events: Seq<Seq<char>>, place: usize)
    requires
        rules.len() <= usize::MAX,
    ensures
        planned(rules, events, rules.len() as int).contains((place, HookDecision::Run)) <==> {
            &&& place < rules.len()
            &&& rules[place as int].command@.len() > 0
            &&& has_prefix(rules[place as int].command@[0]@, "/"@)
            &&& overlap(texts(rules[place as int].events@), events)
        },
{
    lemma_planned(rules, events, rules.len() as int);
    if place < rules.len() {
        let command = rules[place as int].command@;
        if command.len() > 0 {
            assert(texts(command)[0] == command[0]@);
        }
    }
}

proof fn lemma_planned(rules: Seq<HookRule>, events: Seq<Seq<char>>, n: int)
    requires
        0 <= n <= rules.len() <= usize::MAX,
    ensures
        forall|i: int, j: int|
            0 <= i < j < planned(rules, events, n).len() ==> (#[trigger] planned(
                rules,
                events,
                n,
            )[i]).0 < (#[trigger] planned(rules, events, n)[j]).0,
        forall|place: usize, decision: HookDecision| #[trigger]
            planned(rules, events, n).contains((place, decision)) <==> place < n && decision
                == rule_decision(rules[place as int], events) && decision != HookDecision::Skip,
    decreases n,
{
    let plan = planned(rules, events, n);
    if n > 0 {
        let before = planned(rules, events, n - 1);
        lemma_planned(rules, events, n - 1);
        let last = rule_decision(rules[n - 1], events);
        assert forall|k: int| 0 <= k < before.len() implies (#[trigger] before[k]).0 < n - 1 by {
            assert(before.contains((before[k].0, before[k].1)));
        }
        assert forall|place: usize, decision: HookDecision| #[trigger]
            plan.contains((place, decision)) <==> place < n && decision == rule_decision(
            rules[place as int],
            events,
        ) && decision != HookDecision::Skip by {
            let item = (place, decision);
            if plan.contains(item) {
                let k = choose|k: int| 0 <= k < plan.len() && plan[k] == item;
                if k < before.len() {
                    assert(before[k] == item);
                    assert(before.contains(item));
                }
            }
            if before.contains(item) {
                let k = choose|k: int| 0 <= k < before.len() && before[k] == item;
                assert(plan[k] == item);
            }
            if place == n - 1 && decision == last && last != HookDecision::Skip {
                assert(plan[before.len() as int] == item);
            }
        }
    }
}

/// A command as it is run.
pub struct HookCommand {
    pub program: String,
    pub args: Vec<String>,
    /// The whole environment of the command.
    pub env: Vec<(String, String)>,
}

/// The names and values of an environment.
pub open spec fn env_texts(env: Seq<(String, String)>) -> Seq<(Seq<char>, Seq<char>)> {
    env.map_values(|variable: (String, String)| (variable.0@, variable.1@))
}

/// The environment of a hook.
pub open spec fn hook_env(event: EventView) -> Seq<(Seq<char>, Seq<char>)> {
    seq![
        ("PATH"@, "/usr/sbin:/usr/bin:/sbin:/bin"@),
        ("VSB_EVENTS"@, joined(event.events, ","@)),
        ("VSB_VMID"@, decimal(event.vmid as nat)),
        ("VSB_HWMON_NAME"@, event.hwmon_name),
        ("VSB_HWMON_PATH"@, event.hwmon_path),
        ("VSB_SENSOR_COUNT"@, decimal(event.sensor_count as nat)),
    ]
}

/// The command of a rule, as it is run on an event.
pub fn hook_command(rule: &HookRule, event: &TopologyEvent) -> (command: HookCommand)
    requires
        rule.command@.len() > 0,
    ensures
        command.program@ == texts(rule.command@)[0],
        texts(command.args@) == texts(rule.command@).skip(1),
        env_texts(command.env@) == hook_env(event@),
{
    let mut args: Vec<String> = Vec::new();
    assert(texts(rule.command@).subrange(1, 1) =~= texts(args@));
    for i in 1..rule.command.len()
        invariant
            rule.command@.len() > 0,
            texts(args@) == texts(rule.command@).subrange(1, i as int),
    {
        let ghost before = texts(args@);
        args.push(rule.command[i].clone());
        assert(texts(args@) =~= before.push(rule.command@[i as int]@));
        assert(texts(args@) =~= texts(rule.command@).subrange(1, i as int + 1));
    }
    assert(texts(args@) =~= texts(rule.command@).skip(1));
    let mut env: Vec<(String, String)> = Vec::new();
    env.push(("PATH".to_string(), "/usr/sbin:/usr/bin:/sbin:/bin".to_string()));
    env.push(("VSB_EVENTS".to_string(), join(&event.events, ",")));
    env.push(("VSB_VMID".to_string(), format_u64(event.vmid as u64)));
    env.push(("VSB_HWMON_NAME".to_string(), event.hwmon_name.clone()));
    env.push(("VSB_HWMON_PATH".to_string(), event.hwmon_path.clone()));
    env.push(("VSB_SENSOR_COUNT".to_string(), format_u64(event.sensor_count as u64)));
    assert(env_texts(env@) =~= hook_env(event@));
    HookCommand { program: rule.command[0].clone(), args, env }
}

/// A number of seconds, brought between one second and five minutes.
pub open spec fn bounded_seconds(seconds: u64) -> u64 {
    if seconds < 1 {
        1
    } else if seconds > MAX_HOOK_DELAY_SECONDS {
        MAX_HOOK_DELAY_SECONDS
    } else {
        seconds
    }
}

/// Brings a number of seconds between one second and five minutes.
pub fn bounded_duration(seconds: u64) -> (bounded: u64)
    ensures
        bounded == bounded_seconds(seconds),
{
    if seconds < 1 {
        1
    } else if seconds > MAX_HOOK_DELAY_SECONDS {
        MAX_HOOK_DELAY_SECONDS
    } else {
        seconds
    }
}

/// How much longer to gather events; `None` once the deadline has come.
pub fn gather_for(deadline: u64, now: u64) -> (nanos: Option<u64>)
    ensures
        nanos == (if now >= deadline {
            None
        } else {
            Some((deadline - now) as u64)
        }),
        nanos == gathering_left(deadline, now),
{
    if now >= deadline {
        None
    } else {
        Some(deadline - now)
    }
}

/// What to do about a running hook.
#[derive(Clone, Copy, Debug, PartialEq, Eq, Structural)]
pub enum WaitStep {
    /// It ended well.
    Done,
    /// It ended badly.
    Failed,
    /// It ran too long and has to be killed.
    TimedOut,
    /// Look again in a moment.
    Sleep,
}

/// What to do about a hook, where `exited` says whether it ended, and how.
pub fn wait_step(exited: Option<bool>, deadline: u64, now: u64) -> (step: WaitStep)
    ensures
        step == (match exited {
            Some(true) => WaitStep::Done,
            Some(false) => WaitStep::Failed,
            None => if now >= deadline {
                WaitStep::TimedOut
            } else {
                WaitStep::Sleep
            },
        }),
        step == waited(exited, deadline, now),
{
    match exited {
        Some(success) => {
            if success {
                WaitStep::Done
            } else {
                WaitStep::Failed
            }
        },
        None => {
            if now >= deadline {
                WaitStep::TimedOut
            } else {
                WaitStep::Sleep
            }
        },
    }
}

/// Nothing that was gathered is lost: after one more event, what rules saw
/// before they still see, and they see the new event too.
pub proof fn law_merging_loses_nothing(
    prior: Option<EventView>,
    next: EventView,
    merged: EventView,
    text: Seq<char>,
)
    requires
        merges(prior, next, merged),
    ensures
        next.events.contains(text) ==> merged.events.contains(text),
        prior matches Some(prior) ==> (prior.events.contains(text) ==> merged.events.contains(
            text,
        )),
{
}

/// A rule applies where one of its events is one that happened.
pub proof fn law_rule_applies(rule_events: Seq<Seq<char>>, events: Seq<Seq<char>>)
    ensures
        overlap(rule_events, events) <==> exists|event: Seq<char>|
            rule_events.contains(event) && #[trigger] events.contains(event),
{
    if overlap(rule_events, events) {
        let i = choose|i: int|
            0 <= i < rule_events.len() && events.contains(#[trigger] rule_events[i]);
        assert(rule_events.contains(rule_events[i]));
    }
    if exists|event: Seq<char>| rule_events.contains(event) && #[trigger] events.contains(event) {
        let event = choose|event: Seq<char>|
            rule_events.contains(event) && #[trigger] events.contains(event);
        let i = choose|i: int| 0 <= i < rule_events.len() && rule_events[i] == event;
        assert(events.contains(rule_events[i]));
    }
}

/// What was gathered is the events that happened, of either time, and the device
/// as it was last.
pub proof fn law_gathered_events(
    prior: EventView,
    next: EventView,
    merged: EventView,
    text: Seq<char>,
)
    requires
        merges(Some(prior), next, merged),
    ensures
        merged.events.contains(text) ==> prior.events.contains(text) || next.events.contains(text),
        prior.events.contains(text) || next.events.contains(text) ==> merged.events.contains(text),
        merged.vmid == prior.vmid,
        merged.hwmon_name == next.hwmon_name,
        merged.hwmon_path == next.hwmon_path,
        merged.sensor_count == next.sensor_count,
{
}

/// A hook learns from its environment what happened, to which VM, and which
/// device the VM has; it sees nothing else but a search path.
pub proof fn law_hook_environment(event: EventView)
    ensures
        hook_env(event).len() == 6,
        hook_env(event).contains(("PATH"@, "/usr/sbin:/usr/bin:/sbin:/bin"@)),
        hook_env(event).contains(("VSB_EVENTS"@, joined(event.events, ","@))),
        hook_env(event).contains(("VSB_VMID"@, decimal(event.vmid as nat))),
        hook_env(event).contains(("VSB_HWMON_NAME"@, event.hwmon_name)),
        hook_env(event).contains(("VSB_HWMON_PATH"@, event.hwmon_path)),
        hook_env(event).contains(("VSB_SENSOR_COUNT"@, decimal(event.sensor_count as nat))),
{
    let env = hook_env(event);
    assert(env[0].0 == "PATH"@);
    assert(env[1].0 == "VSB_EVENTS"@);
    assert(env[2].0 == "VSB_VMID"@);
    assert(env[3].0 == "VSB_HWMON_NAME"@);
    assert(env[4].0 == "VSB_HWMON_PATH"@);
    assert(env[5].0 == "VSB_SENSOR_COUNT"@);
}

/// How much longer to gather events, where there is any time left.
pub open spec fn gathering_left(deadline: u64, now: u64) -> Option<u64> {
    if deadline > now {
        Some((deadline - now) as u64)
    } else {
        None
    }
}

/// Events are gathered up to the deadline and no longer.
pub proof fn law_gathering_ends(deadline: u64, now: u64)
    ensures
        gathering_left(deadline, now) is None <==> now >= deadline,
        gathering_left(deadline, now) matches Some(left) ==> left > 0 && now + left == deadline,
{
}

/// What to do about a hook that may have ended.
pub open spec fn waited(exited: Option<bool>, deadline: u64, now: u64) -> WaitStep {
    if exited == Some(true) {
        WaitStep::Done
    } else if exited == Some(false) {
        WaitStep::Failed
    } else if now < deadline {
        WaitStep::Sleep
    } else {
        WaitStep::TimedOut
    }
}

/// A hook that ended is judged by how it ended, however late that was; one that
/// runs is waited for up to its deadline and ended then.
pub proof fn law_hooks_are_waited_for(deadline: u64, now: u64)
    ensures
        waited(Some(true), deadline, now) == WaitStep::Done,
        waited(Some(false), deadline, now) == WaitStep::Failed,
        waited(None, deadline, now) == WaitStep::Sleep <==> now < deadline,
        waited(None, deadline, now) == WaitStep::TimedOut <==> now >= deadline,
{
}

} // verus!
