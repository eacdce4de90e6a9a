//! Entity-side protocol logic: what a sensor or actuator decides between
//! fabric calls. The loops, sockets and clocks live at the unverified edge;
//! they feed timestamps, replies and random readings in and carry commands
//! and samples out.

use vstd::prelude::*;

use crate::messages::{
    ActuatorState, DiscoveryCommand, EntityDiscoveryCommand, EntityStatePayload, EntityType,
    Measurement, NamedEntityState, PublishData, ResponseCode, SensorMeasurement,
};
use crate::HEARTBEAT_FREQUENCY_MS;

verus! {

/// Build the discovery request an entity sends for itself.
pub fn discovery_command(name: &str, entity_type: EntityType, command: DiscoveryCommand) -> (r:
    EntityDiscoveryCommand)
    ensures
        r@.entity_name == name@,
        r@.entity_type == entity_type,
        r@.command == command,
{
    EntityDiscoveryCommand { entity_name: name.to_owned(), entity_type, command }
}

/// Why an entity refused a state update from its back channel.
#[derive(Debug, Clone, Copy, PartialEq, Eq, Structural)]
pub enum UpdateError {
    /// The update addressed a different entity.
    WrongEntity,
    /// The payload kind does not fit this entity.
    InvalidPayload,
    /// An actuator state of another variant than the actuator's own.
    IncompatibleKind,
}

/// Whether two strings hold the same characters.
fn str_eq(a: &str, b: &str) -> (r: bool)
    ensures
        r == (a@ == b@),
{
    let alen = a.unicode_len();
    let blen = b.unicode_len();
    if alen != blen {
        return false;
    }
    let mut i: usize = 0;
    while i < alen
        invariant
            0 <= i <= alen,
            alen == a@.len(),
            alen == b@.len(),
            forall|j: int| 0 <= j < i ==> a@[j] == b@[j],
        decreases alen - i,
    {
        if a.get_char(i) != b.get_char(i) {
            proof {
                assert(a@[i as int] != b@[i as int]);
            }
            return false;
        }
        i = i + 1;
    }
    proof {
        assert(a@ =~= b@);
    }
    true
}

/// How a sensor answers a state update: the only payload it accepts is a
/// configuration carrying its new publish frequency (bit pattern of the Hz
/// value), and only when addressed by its own name.
pub fn sensor_handle_incoming(own_name: &str, data: &NamedEntityState) -> (r: Result<
    u32,
    UpdateError,
>)
    ensures
        data@.entity_name != own_name@ ==> r == Result::<u32, UpdateError>::Err(
            UpdateError::WrongEntity,
        ),
        data@.entity_name == own_name@ ==> match data@.state {
            EntityStatePayload::SensorConfiguration { update_frequency_hz } => r == Result::<
                u32,
                UpdateError,
            >::Ok(update_frequency_hz),
            EntityStatePayload::ActuatorState(_) => r == Result::<u32, UpdateError>::Err(
                UpdateError::InvalidPayload,
            ),
        },
{
    if !str_eq(data.entity_name.as_str(), own_name) {
        return Err(UpdateError::WrongEntity);
    }
    match data.state {
        EntityStatePayload::SensorConfiguration { update_frequency_hz } => {
            Ok(update_frequency_hz)
        },
        EntityStatePayload::ActuatorState(_) => Err(UpdateError::InvalidPayload),
    }
}

/// The variant an actuator state belongs to.
#[derive(Debug, Clone, Copy, PartialEq, Eq, Structural)]
pub enum ActuatorKind {
    AirConditioning,
    Light,
}

/// The variant of a concrete actuator state.
pub open spec fn spec_kind_of(state: ActuatorState) -> ActuatorKind {
    match state {
        ActuatorState::Light { .. } => ActuatorKind::Light,
        ActuatorState::AirConditioning { .. } => ActuatorKind::AirConditioning,
    }
}

impl ActuatorKind {
    /// The variant of a concrete actuator state.
    pub fn of_state(state: &ActuatorState) -> (r: Self)
        ensures
            r == spec_kind_of(*state),
    {
        match state {
            ActuatorState::Light { .. } => ActuatorKind::Light,
            ActuatorState::AirConditioning { .. } => ActuatorKind::AirConditioning,
        }
    }

    /// The initial state of an actuator of this kind: a dark light, or an
    /// air conditioner that is off.
    pub fn initial_state(self) -> (r: ActuatorState)
        ensures
            spec_kind_of(r) == self,
            r == (match self {
                ActuatorKind::Light => ActuatorState::Light { brightness: 0 },
                ActuatorKind::AirConditioning => ActuatorState::AirConditioning { on: false },
            }),
    {
        match self {
            ActuatorKind::Light => ActuatorState::Light { brightness: 0 },
            ActuatorKind::AirConditioning => ActuatorState::AirConditioning { on: false },
        }
    }

    /// This kind's name on the command line.
    pub fn label(self) -> (r: String)
        ensures
            self == ActuatorKind::AirConditioning ==> r@ == "AirConditioning"@,
            self == ActuatorKind::Light ==> r@ == "Light"@,
    {
        match self {
            ActuatorKind::AirConditioning => String::from_str("AirConditioning"),
            ActuatorKind::Light => String::from_str("Light"),
        }
    }

    /// Parse a command-line kind name; `None` for anything unknown.
    pub fn from_name(s: &str) -> (r: Option<Self>)
        ensures
            r == Some(ActuatorKind::AirConditioning) <==> s@ == "AirConditioning"@,
            r == Some(ActuatorKind::Light) <==> s@ == "Light"@,
            r is None <==> (s@ != "AirConditioning"@ && s@ != "Light"@),
    {
        proof {
            reveal_strlit("AirConditioning");
            reveal_strlit("Light");
            assert("AirConditioning"@.len() == 15);
            assert("Light"@.len() == 5);
        }
        if str_eq(s, "AirConditioning") {
            Some(ActuatorKind::AirConditioning)
        } else if str_eq(s, "Light") {
            Some(ActuatorKind::Light)
        } else {
            None
        }
    }

    /// The kind names a user may give on the command line.
    pub fn list_allowed() -> (r: String)
        ensures
            r@ == "Allowed values: AirConditioning, Light"@,
    {
        String::from_str("Allowed values: AirConditioning, Light")
    }
}

/// The kinds of sensor reading.
#[derive(Debug, Clone, Copy, PartialEq, Eq, Structural)]
pub enum SensorKind {
    Humidity,
    Temperature,
}

impl SensorKind {
    /// This kind's name on the command line.
    pub fn label(self) -> (r: String)
        ensures
            self == SensorKind::Humidity ==> r@ == "Humidity"@,
            self == SensorKind::Temperature ==> r@ == "Temperature"@,
    {
        match self {
            SensorKind::Humidity => String::from_str("Humidity"),
            SensorKind::Temperature => String::from_str("Temperature"),
        }
    }

    /// Parse a command-line kind name; `None` for anything unknown.
    pub fn from_name(s: &str) -> (r: Option<Self>)
        ensures
            r == Some(SensorKind::Humidity) <==> s@ == "Humidity"@,
            r == Some(SensorKind::Temperature) <==> s@ == "Temperature"@,
            r is None <==> (s@ != "Humidity"@ && s@ != "Temperature"@),
    {
        proof {
            reveal_strlit("Humidity");
            reveal_strlit("Temperature");
            assert("Humidity"@.len() == 8);
            assert("Temperature"@.len() == 11);
        }
        if str_eq(s, "Humidity") {
            Some(SensorKind::Humidity)
        } else if str_eq(s, "Temperature") {
            Some(SensorKind::Temperature)
        } else {
            None
        }
    }

    /// The kind names a user may give on the command line.
    pub fn list_allowed() -> (r: String)
        ensures
            r@ == "Allowed values: Humidity, Temperature"@,
    {
        String::from_str("Allowed values: Humidity, Temperature")
    }

    /// Wrap a freshly drawn reading (bit pattern of the 32-bit float) as a
    /// sample with this kind's unit.
    pub fn measurement(self, reading: u32) -> (r: SensorMeasurement)
        ensures
            self == SensorKind::Humidity ==> r@.unit == "%"@ && r@.value
                == (Measurement::Humidity { bits: reading }),
            self == SensorKind::Temperature ==> r@.unit == "\u{b0}C"@ && r@.value
                == (Measurement::Temperature { bits: reading }),
    {
        match self {
            SensorKind::Humidity => SensorMeasurement {
                unit: String::from_str("%"),
                value: Measurement::Humidity { bits: reading },
            },
            SensorKind::Temperature => SensorMeasurement {
                unit: String::from_str("\u{b0}C"),
                value: Measurement::Temperature { bits: reading },
            },
        }
    }
}

/// The controller-facing core of an actuator: its name and its current
/// state, of a fixed variant.
#[derive(Debug)]
pub struct ActuatorCore {
    pub name: String,
    pub state: ActuatorState,
}

impl ActuatorCore {
    /// A fresh actuator of the given kind.
    pub fn new(name: String, kind: ActuatorKind) -> (r: Self)
        ensures
            r.name@ == name@,
            spec_kind_of(r.state) == kind,
    {
        let state = kind.initial_state();
        ActuatorCore { name, state }
    }

    /// The sample this actuator publishes: its current state.
    pub fn publish_data(&self) -> (r: PublishData)
        ensures
            r@ == crate::messages::PublishDataV::ActuatorState(self.state),
    {
        PublishData::ActuatorState(self.state)
    }

    /// How an actuator answers a state update. A state of its own variant
    /// replaces its state; a state of the other variant is refused and
    /// changes nothing; a sensor configuration only adjusts the publish
    /// rate. Updates addressed to another name are refused.
    pub fn handle_incoming(&mut self, data: &NamedEntityState) -> (r: Result<
        Option<u32>,
        UpdateError,
    >)
        ensures
            data@.entity_name != old(self).name@ ==> r == Result::<
                Option<u32>,
                UpdateError,
            >::Err(UpdateError::WrongEntity) && final(self).state == old(self).state,
            data@.entity_name == old(self).name@ ==> match data@.state {
                EntityStatePayload::ActuatorState(new_state) => {
                    if spec_kind_of(new_state) == spec_kind_of(old(self).state) {
                        r == Result::<Option<u32>, UpdateError>::Ok(Option::<u32>::None)
                            && final(self).state == new_state
                    } else {
                        r == Result::<Option<u32>, UpdateError>::Err(
                            UpdateError::IncompatibleKind,
                        ) && final(self).state == old(self).state
                    }
                },
                EntityStatePayload::SensorConfiguration { update_frequency_hz } => r == Result::<
                    Option<u32>,
                    UpdateError,
                >::Ok(Some(update_frequency_hz)) && final(self).state == old(self).state,
            },
            final(self).name@ == old(self).name@,
    {
        if !str_eq(data.entity_name.as_str(), self.name.as_str()) {
            return Err(UpdateError::WrongEntity);
        }
        match data.state {
            EntityStatePayload::ActuatorState(new_state) => {
                let old_kind = ActuatorKind::of_state(&self.state);
                let new_kind = ActuatorKind::of_state(&new_state);
                if old_kind == new_kind {
                    self.state = new_state;
                    Ok(None)
                } else {
                    Err(UpdateError::IncompatibleKind)
                }
            },
            EntityStatePayload::SensorConfiguration { update_frequency_hz } => {
                Ok(Some(update_frequency_hz))
            },
        }
    }
}

/// The heartbeat schedule: when the last heartbeat went out, and whether
/// the next one is due.
#[derive(Debug, Clone, Copy)]
pub struct HeartbeatSchedule {
    pub last_sent: u64,
}

impl HeartbeatSchedule {
    /// A schedule that treats the given instant as the last heartbeat.
    pub fn new(now: u64) -> (r: Self)
        ensures
            r.last_sent == now,
    {
        HeartbeatSchedule { last_sent: now }
    }

    /// A heartbeat is due once a full interval has passed since the last.
    pub fn due(&self, now: u64) -> (r: bool)
        ensures
            r == (now >= self.last_sent + HEARTBEAT_FREQUENCY_MS),
    {
        now >= self.last_sent && now - self.last_sent >= HEARTBEAT_FREQUENCY_MS
    }

    /// Record that a heartbeat went out now.
    pub fn sent(&mut self, now: u64)
        ensures
            final(self).last_sent == now,
    {
        self.last_sent = now;
    }
}

/// What the entity must do after its heartbeat was answered: carry on while
/// the controller says so, shut down once it answers with an error, which
/// it does when it no longer knows the entity.
pub fn interpret_heartbeat_reply(reply: ResponseCode) -> (r: Result<(), ()>)
    ensures
        r is Ok <==> reply == ResponseCode::Okay,
{
    match reply {
        ResponseCode::Okay => Ok(()),
        ResponseCode::Error => Err(()),
    }
}

/// How many consecutive publish failures an entity tolerates before it
/// gives up and shuts down.
pub const PUBLISH_FAILURE_LIMIT: u8 = 3;

/// What the publisher loop does after one publish attempt.
#[derive(Debug, Clone, Copy, PartialEq, Eq, Structural)]
pub enum PublishStep {
    /// Sleep one refresh interval and publish again.
    Continue,
    /// Too many consecutive failures: stop publishing and shut down.
    GiveUp,
}

/// The publisher's retry state: how many publishes in a row have failed.
#[derive(Debug, Clone, Copy)]
pub struct PublishRetry {
    pub consecutive_failures: u8,
}

impl PublishRetry {
    /// A fresh retry state with no failures seen.
    pub fn new() -> (r: Self)
        ensures
            r.consecutive_failures == 0,
    {
        PublishRetry { consecutive_failures: 0 }
    }

    /// Record one publish outcome: success resets the count, a failure
    /// raises it, and the loop gives up at the failure limit.
    pub fn step(&mut self, success: bool) -> (r: PublishStep)
        requires
            old(self).consecutive_failures <= PUBLISH_FAILURE_LIMIT,
        ensures
            success ==> final(self).consecutive_failures == 0 && r == PublishStep::Continue,
            !success ==> final(self).consecutive_failures == old(self).consecutive_failures + 1
                && (r == PublishStep::GiveUp <==> final(self).consecutive_failures
                >= PUBLISH_FAILURE_LIMIT),
    {
        if success {
            self.consecutive_failures = 0;
            PublishStep::Continue
        } else {
            self.consecutive_failures = self.consecutive_failures + 1;
            if self.consecutive_failures >= PUBLISH_FAILURE_LIMIT {
                PublishStep::GiveUp
            } else {
                PublishStep::Continue
            }
        }
    }
}

} // verus!
