//! What the agent does when: a loop that sends readings and heartbeats, looks
//! for new sensors, and answers the host.

use crate::agent::config::AgentSection;
use crate::agent::disks::at_least_one;
use crate::agent::sensors::{
    descriptors, read_values, sensor_values, tracked_views, TrackedSensor, TrackedView,
};
use crate::protocol::{
    descriptor_views, same_descriptor, value_views, DescriptorView, ErrorKind, Message,
    SensorDescriptor,
};
use crate::text::{copy_optional, optional_text};
use crate::time::{has_passed, passed};
use vstd::prelude::*;

verus! {

/// One step of the agent.
#[derive(Clone, Copy, Debug, PartialEq, Eq, Structural)]
pub enum AgentStep {
    SendHello,
    SendSchema,
    SendSample,
    SendHeartbeat,
    /// Look for sensors.
    Rescan,
    SendGoodbye,
}

/// How far the agent is. Times are nanoseconds of a monotonic clock.
#[derive(Clone, Copy, Debug, PartialEq, Eq, Structural)]
pub struct AgentClock {
    /// The generation of the schema in force.
    pub generation: u64,
    pub last_sample: u64,
    pub last_heartbeat: u64,
    pub last_rescan: u64,
}

/// Whether something that is done every `seconds` seconds, but not more than
/// once a second, is due.
pub open spec fn due(now: u64, last: u64, seconds: u64) -> bool {
    has_passed(now, last, at_least_one(seconds))
}

fn is_due(now: u64, last: u64, seconds: u64) -> (yes: bool)
    ensures
        yes == due(now, last, seconds),
{
    let wait: u64 = if seconds < 1 {
        1
    } else {
        seconds
    };
    passed(now, last, wait)
}

/// How the agent answers a request for a resync: with all that the host needs
/// to know.
pub open spec fn resync_steps() -> Seq<AgentStep> {
    seq![AgentStep::SendHello, AgentStep::SendSchema, AgentStep::SendSample]
}

/// How the agent begins, with the clock as `AgentClock::start` sets it: the host
/// gets to know who is there, then what sensors there are, then their values.
pub fn opening_steps() -> (steps: Vec<AgentStep>)
    ensures
        steps@ == resync_steps(),
{
    let mut steps: Vec<AgentStep> = Vec::new();
    steps.push(AgentStep::SendHello);
    steps.push(AgentStep::SendSchema);
    steps.push(AgentStep::SendSample);
    assert(steps@ =~= resync_steps());
    steps
}

/// How the agent ends when it is told to.
pub fn closing_steps() -> (steps: Vec<AgentStep>)
    ensures
        steps@ == seq![AgentStep::SendGoodbye],
{
    let mut steps: Vec<AgentStep> = Vec::new();
    steps.push(AgentStep::SendGoodbye);
    assert(steps@ =~= seq![AgentStep::SendGoodbye]);
    steps
}

/// A step, where it is to be taken.
pub open spec fn step_if(taken: bool, step: AgentStep) -> Seq<AgentStep> {
    if taken {
        seq![step]
    } else {
        Seq::empty()
    }
}

/// What the agent does next, in order.
pub open spec fn next_steps(
    clock: AgentClock,
    config: AgentSection,
    resync: bool,
    now: u64,
) -> Seq<AgentStep> {
    (if resync {
        resync_steps()
    } else {
        Seq::empty()
    }) + step_if(due(now, clock.last_sample, config.sample_seconds), AgentStep::SendSample)
        + step_if(
        due(now, clock.last_heartbeat, config.heartbeat_seconds),
        AgentStep::SendHeartbeat,
    ) + step_if(due(now, clock.last_rescan, config.rescan_seconds), AgentStep::Rescan)
}

/// When something was last done, where it is done now if it is due.
pub open spec fn touched(now: u64, last: u64, seconds: u64) -> u64 {
    if due(now, last, seconds) {
        now
    } else {
        last
    }
}

/// How far the agent is after what was due has been done.
pub open spec fn ticked(clock: AgentClock, config: AgentSection, now: u64) -> AgentClock {
    AgentClock {
        generation: clock.generation,
        last_sample: touched(now, clock.last_sample, config.sample_seconds),
        last_heartbeat: touched(now, clock.last_heartbeat, config.heartbeat_seconds),
        last_rescan: touched(now, clock.last_rescan, config.rescan_seconds),
    }
}

impl AgentClock {
    /// The agent has just sent its first schema.
    pub fn start(now: u64) -> (clock: Self)
        ensures
            clock == (AgentClock {
                generation: 1,
                last_sample: now,
                last_heartbeat: now,
                last_rescan: now,
            }),
    {
        AgentClock { generation: 1, last_sample: now, last_heartbeat: now, last_rescan: now }
    }

    /// What the agent does now, where `resync` says whether the host asked for
    /// a resync since.
    pub fn tick(&mut self, config: &AgentSection, resync: bool, now: u64) -> (steps: Vec<
        AgentStep,
    >)
        ensures
            steps@ == next_steps(*old(self), *config, resync, now),
            *final(self) == ticked(*old(self), *config, now),
    {
        let mut steps: Vec<AgentStep> = Vec::new();
        let ghost before = *self;
        if resync {
            steps.push(AgentStep::SendHello);
            steps.push(AgentStep::SendSchema);
            steps.push(AgentStep::SendSample);
        }
        if is_due(now, self.last_sample, config.sample_seconds) {
            steps.push(AgentStep::SendSample);
            self.last_sample = now;
        }
        if is_due(now, self.last_heartbeat, config.heartbeat_seconds) {
            steps.push(AgentStep::SendHeartbeat);
            self.last_heartbeat = now;
        }
        if is_due(now, self.last_rescan, config.rescan_seconds) {
            steps.push(AgentStep::Rescan);
            self.last_rescan = now;
        }
        assert(steps@ =~= next_steps(before, *config, resync, now));
        steps
    }

    /// What the agent does after it looked for sensors: where they changed,
    /// they make a new generation, and the host is told.
    pub fn rescanned(&mut self, known: &[SensorDescriptor], found: &[SensorDescriptor]) -> (steps:
        Vec<AgentStep>)
        requires
            old(self).generation < u64::MAX || descriptor_views(known@) == descriptor_views(found@),
        ensures
            descriptor_views(known@) == descriptor_views(found@) ==> {
                &&& *final(self) == *old(self)
                &&& steps@ == Seq::<AgentStep>::empty()
            },
            descriptor_views(known@) != descriptor_views(found@) ==> {
                &&& *final(self) == (AgentClock {
                    generation: (old(self).generation + 1) as u64,
                    ..*old(self)
                })
                &&& steps@ == seq![AgentStep::SendSchema, AgentStep::SendSample]
            },
            steps@ == steps_on_change(descriptor_views(known@), descriptor_views(found@)),
            final(self).generation == generation_after(
                old(self).generation,
                descriptor_views(known@),
                descriptor_views(found@),
            ),
    {
        let mut steps: Vec<AgentStep> = Vec::new();
        if !same_descriptors(known, found) {
            self.generation = self.generation + 1;
            steps.push(AgentStep::SendSchema);
            steps.push(AgentStep::SendSample);
            assert(steps@ =~= seq![AgentStep::SendSchema, AgentStep::SendSample]);
        }
        steps
    }
}

/// Who the agent is.
#[derive(Debug)]
pub struct AgentIdentity {
    pub agent_version: String,
    pub hostname: String,
    pub hwmon_name: Option<String>,
}

/// What `SendHello` sends.
pub fn hello_message(identity: &AgentIdentity) -> (message: Message)
    ensures
        message matches Message::Hello { agent_version, hostname, hwmon_name } && agent_version@
            == identity.agent_version@ && hostname@ == identity.hostname@ && optional_text(
            hwmon_name,
        ) == optional_text(identity.hwmon_name),
{
    Message::Hello {
        agent_version: identity.agent_version.clone(),
        hostname: identity.hostname.clone(),
        hwmon_name: copy_optional(&identity.hwmon_name),
    }
}

impl AgentClock {
    /// What `SendSchema` sends: all sensors, under the generation in force.
    pub fn schema_message(&self, sensors: &[TrackedSensor]) -> (message: Message)
        ensures
            message matches Message::Schema { generation, sensors: list } && generation
                == self.generation && descriptor_views(list@) == tracked_views(
                sensors@,
            ).map_values(|sensor: TrackedView| sensor.descriptor),
    {
        Message::Schema { generation: self.generation, sensors: descriptors(sensors) }
    }

    /// What `SendSample` sends: the values of the sensors that have one, under
    /// the generation in force.
    pub fn sample_message(&self, sensors: &[TrackedSensor], reads: &[Option<i64>]) -> (message:
        Message)
        ensures
            message matches Message::Sample { generation, values } && generation
                == self.generation && value_views(values@) == sensor_values(
                tracked_views(sensors@),
                reads@,
                sensors@.len() as int,
            ),
    {
        Message::Sample { generation: self.generation, values: read_values(sensors, reads) }
    }
}

/// Whether two lists of sensors say the same.
pub fn same_descriptors(a: &[SensorDescriptor], b: &[SensorDescriptor]) -> (equal: bool)
    ensures
        equal == (descriptor_views(a@) == descriptor_views(b@)),
{
    if a.len() != b.len() {
        assert(descriptor_views(a@).len() != descriptor_views(b@).len());
        return false;
    }
    for i in 0..a.len()
        invariant
            a@.len() == b@.len(),
            forall|j: int| 0 <= j < i ==> (#[trigger] a@[j])@ == b@[j]@,
    {
        if !same_descriptor(&a[i], &b[i]) {
            assert(descriptor_views(a@)[i as int] != descriptor_views(b@)[i as int]);
            return false;
        }
    }
    assert(descriptor_views(a@) =~= descriptor_views(b@));
    true
}

proof fn lemma_step_is_taken(clock: AgentClock, config: AgentSection, now: u64, step: AgentStep)
    ensures
        next_steps(clock, config, false, now).contains(step) <==> {
            ||| step == AgentStep::SendSample && due(now, clock.last_sample, config.sample_seconds)
            ||| step == AgentStep::SendHeartbeat && due(
                now,
                clock.last_heartbeat,
                config.heartbeat_seconds,
            )
            ||| step == AgentStep::Rescan && due(now, clock.last_rescan, config.rescan_seconds)
        },
{
    let sample = due(now, clock.last_sample, config.sample_seconds);
    let heartbeat = due(now, clock.last_heartbeat, config.heartbeat_seconds);
    let rescan = due(now, clock.last_rescan, config.rescan_seconds);
    let steps = next_steps(clock, config, false, now);
    let a: int = if sample {
        1
    } else {
        0
    };
    let b: int = if heartbeat {
        a + 1
    } else {
        a
    };
    assert(sample ==> steps[0] == AgentStep::SendSample);
    assert(heartbeat ==> steps[a] == AgentStep::SendHeartbeat);
    assert(rescan ==> steps[b] == AgentStep::Rescan);
}

/// What the agent does by itself, it does not do again within a second.
pub proof fn law_nothing_twice_in_a_second(
    clock: AgentClock,
    config: AgentSection,
    now: u64,
    later: u64,
    step: AgentStep,
)
    requires
        now <= later < now + 1_000_000_000,
        next_steps(clock, config, false, now).contains(step),
    ensures
        !next_steps(ticked(clock, config, now), config, false, later).contains(step),
{
    lemma_step_is_taken(clock, config, now, step);
    lemma_step_is_taken(ticked(clock, config, now), config, later, step);
}

/// What to do about what the host sent.
#[derive(Clone, Copy, Debug, PartialEq, Eq, Structural)]
pub enum ReaderStep {
    /// It asks for a resync.
    Resync,
    /// Nothing.
    Ignore,
    /// It sends nonsense: read no more.
    Stop,
    /// It is gone: try again in a moment.
    Retry,
}

/// What to do about a message of the host.
pub fn reader_step(message: &Message) -> (step: ReaderStep)
    ensures
        step == (if message is RequestResync {
            ReaderStep::Resync
        } else {
            ReaderStep::Ignore
        }),
        step == reaction(*message),
{
    match message {
        Message::RequestResync => ReaderStep::Resync,
        _ => ReaderStep::Ignore,
    }
}

/// What to do where nothing could be read, where `kind` is the class of the
/// error, if it is one of the protocol.
pub fn reader_error_step(kind: Option<ErrorKind>) -> (step: ReaderStep)
    ensures
        step == (if kind == Some(ErrorKind::InvalidData) {
            ReaderStep::Stop
        } else {
            ReaderStep::Retry
        }),
{
    match kind {
        Some(ErrorKind::InvalidData) => ReaderStep::Stop,
        _ => ReaderStep::Retry,
    }
}

/// What the host is told after a look for sensors.
pub open spec fn steps_on_change(known: Seq<DescriptorView>, found: Seq<DescriptorView>) -> Seq<
    AgentStep,
> {
    if known == found {
        Seq::empty()
    } else {
        seq![AgentStep::SendSchema, AgentStep::SendSample]
    }
}

/// The generation in force after a look for sensors.
pub open spec fn generation_after(
    generation: u64,
    known: Seq<DescriptorView>,
    found: Seq<DescriptorView>,
) -> int {
    if known == found {
        generation as int
    } else {
        generation + 1
    }
}

/// Sensors that stayed the same are no news and keep their generation. Where
/// anything about them differs, be it one more, one less or one field of one, the
/// generation goes up by one, and the schema is sent before the values.
pub proof fn law_changes_are_told(
    generation: u64,
    known: Seq<DescriptorView>,
    found: Seq<DescriptorView>,
    i: int,
)
    ensures
        steps_on_change(known, known).len() == 0 && generation_after(generation, known, known)
            == generation,
        known.len() != found.len() || (0 <= i < known.len() && known[i] != found[i]) ==> {
            &&& steps_on_change(known, found).len() == 2
            &&& steps_on_change(known, found)[0] == AgentStep::SendSchema
            &&& steps_on_change(known, found)[1] == AgentStep::SendSample
            &&& generation_after(generation, known, found) == generation + 1
        },
{
}

/// What to do about a message of the host.
pub open spec fn reaction(message: Message) -> ReaderStep {
    match message {
        Message::RequestResync => ReaderStep::Resync,
        _ => ReaderStep::Ignore,
    }
}

/// The agent answers a request for a resync, and nothing else that the host says.
pub proof fn law_only_resyncs_are_answered(message: Message)
    ensures
        reaction(message) == ReaderStep::Resync <==> message == Message::RequestResync,
        reaction(message) != ReaderStep::Resync ==> reaction(message) == ReaderStep::Ignore,
{
}

} // verus!
