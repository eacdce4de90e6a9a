//! The typed messages exchanged on the fabric, and their ghost models.
//!
//! Floating-point readings (temperatures, humidity, brightness, update
//! frequency) are carried as the raw bit pattern of the 32-bit float, which is
//! exactly what the wire format stores; turning bits into a float is left to
//! the unverified edges.

use vstd::prelude::*;

verus! {

/// The two classes of entity the controller tracks.
#[derive(Debug, Clone, Copy, PartialEq, Eq, Structural)]
pub enum EntityType {
    Sensor,
    Actuator,
}

/// Outcome of a request, as reported to the peer.
#[derive(Debug, Clone, Copy, PartialEq, Eq, Structural)]
pub enum ResponseCode {
    Okay,
    Error,
}

impl ResponseCode {
    /// Collapse a request-handling outcome into the code sent to the peer.
    pub fn of_outcome(success: bool) -> (r: Self)
        ensures
            r == (if success {
                ResponseCode::Okay
            } else {
                ResponseCode::Error
            }),
    {
        if success {
            ResponseCode::Okay
        } else {
            ResponseCode::Error
        }
    }
}

/// A single sensor reading; the bit pattern of the 32-bit float value.
#[derive(Debug, Clone, Copy, PartialEq, Eq, Structural)]
pub enum Measurement {
    Temperature { bits: u32 },
    Humidity { bits: u32 },
}

/// A sensor sample: a unit label and one reading.
#[derive(Debug, Clone, PartialEq)]
pub struct SensorMeasurement {
    pub unit: String,
    pub value: Measurement,
}

/// Ghost model of a sensor sample.
pub ghost struct SensorMeasurementV {
    pub unit: Seq<char>,
    pub value: Measurement,
}

impl View for SensorMeasurement {
    type V = SensorMeasurementV;

    open spec fn view(&self) -> SensorMeasurementV {
        SensorMeasurementV { unit: self.unit@, value: self.value }
    }
}

/// The externally visible state of an actuator; float values as bit patterns.
#[derive(Debug, Clone, Copy, PartialEq, Eq, Structural)]
pub enum ActuatorState {
    Light { brightness: u32 },
    AirConditioning { on: bool },
}

impl ActuatorState {
    /// A light actuator at the given brightness (bit pattern of the percent value).
    pub fn light(brightness: u32) -> (r: Self)
        ensures
            r == (ActuatorState::Light { brightness }),
    {
        ActuatorState::Light { brightness }
    }

    /// An air-conditioning actuator that is on or off.
    pub fn air_conditioning(on: bool) -> (r: Self)
        ensures
            r == (ActuatorState::AirConditioning { on }),
    {
        ActuatorState::AirConditioning { on }
    }
}

/// A sample published by an entity on its topic.
#[derive(Debug, Clone, PartialEq)]
pub enum PublishData {
    Measurement(SensorMeasurement),
    ActuatorState(ActuatorState),
}

/// Ghost model of a published sample.
pub ghost enum PublishDataV {
    Measurement(SensorMeasurementV),
    ActuatorState(ActuatorState),
}

impl View for PublishData {
    type V = PublishDataV;

    open spec fn view(&self) -> PublishDataV {
        match self {
            PublishData::Measurement(m) => PublishDataV::Measurement(m@),
            PublishData::ActuatorState(s) => PublishDataV::ActuatorState(*s),
        }
    }
}

impl PublishData {
    /// Wrap a sensor sample for publication.
    pub fn of_measurement(m: SensorMeasurement) -> (r: Self)
        ensures
            r@ == PublishDataV::Measurement(m@),
    {
        PublishData::Measurement(m)
    }

    /// Wrap an actuator state for publication.
    pub fn of_actuator_state(s: ActuatorState) -> (r: Self)
        ensures
            r@ == PublishDataV::ActuatorState(s),
    {
        PublishData::ActuatorState(s)
    }
}

/// The request an entity sends on the discovery socket.
#[derive(Debug, Clone, Copy, PartialEq, Eq, Structural)]
pub enum DiscoveryCommand {
    Register { port: u32 },
    Heartbeat,
    Unregister,
}

/// A discovery request: which entity, of which type, wants what.
#[derive(Debug, Clone, PartialEq)]
pub struct EntityDiscoveryCommand {
    pub entity_name: String,
    pub entity_type: EntityType,
    pub command: DiscoveryCommand,
}

/// Ghost model of a discovery request.
pub ghost struct EntityDiscoveryCommandV {
    pub entity_name: Seq<char>,
    pub entity_type: EntityType,
    pub command: DiscoveryCommand,
}

impl View for EntityDiscoveryCommand {
    type V = EntityDiscoveryCommandV;

    open spec fn view(&self) -> EntityDiscoveryCommandV {
        EntityDiscoveryCommandV {
            entity_name: self.entity_name@,
            entity_type: self.entity_type,
            command: self.command,
        }
    }
}

/// A state update addressed to one entity over its back channel.
#[derive(Debug, Clone, Copy, PartialEq, Eq, Structural)]
pub enum EntityStatePayload {
    ActuatorState(ActuatorState),
    /// New publish frequency in Hz; bit pattern of the 32-bit float.
    SensorConfiguration { update_frequency_hz: u32 },
}

/// A state update together with the name of the entity it addresses.
#[derive(Debug, Clone, PartialEq)]
pub struct NamedEntityState {
    pub entity_name: String,
    pub state: EntityStatePayload,
}

/// Ghost model of a named state update.
pub ghost struct NamedEntityStateV {
    pub entity_name: Seq<char>,
    pub state: EntityStatePayload,
}

impl View for NamedEntityState {
    type V = NamedEntityStateV;

    open spec fn view(&self) -> NamedEntityStateV {
        NamedEntityStateV { entity_name: self.entity_name@, state: self.state }
    }
}

impl NamedEntityState {
    /// Address an actuator-state update to the named entity.
    pub fn actuator(entity_name: String, value: ActuatorState) -> (r: Self)
        ensures
            r@ == (NamedEntityStateV {
                entity_name: entity_name@,
                state: EntityStatePayload::ActuatorState(value),
            }),
    {
        NamedEntityState { entity_name, state: EntityStatePayload::ActuatorState(value) }
    }

    /// Address a publish-frequency update (bit pattern of the Hz value) to the
    /// named entity.
    pub fn frequency(entity_name: String, update_frequency_hz: u32) -> (r: Self)
        ensures
            r@ == (NamedEntityStateV {
                entity_name: entity_name@,
                state: EntityStatePayload::SensorConfiguration { update_frequency_hz },
            }),
    {
        NamedEntityState {
            entity_name,
            state: EntityStatePayload::SensorConfiguration { update_frequency_hz },
        }
    }
}

/// A request from the client UI to the controller.
#[derive(Debug, Clone, PartialEq)]
pub enum ClientApiCommand {
    /// Ask for a snapshot of the whole system.
    Query,
    /// Forward a state update to the addressed entity.
    Action(NamedEntityState),
}

/// Ghost model of a client request.
pub ghost enum ClientApiCommandV {
    Query,
    Action(NamedEntityStateV),
}

impl View for ClientApiCommand {
    type V = ClientApiCommandV;

    open spec fn view(&self) -> ClientApiCommandV {
        match self {
            ClientApiCommand::Query => ClientApiCommandV::Query,
            ClientApiCommand::Action(a) => ClientApiCommandV::Action(a@),
        }
    }
}

impl ClientApiCommand {
    /// The full system-state query.
    pub fn system_state_query() -> (r: Self)
        ensures
            r@ == ClientApiCommandV::Query,
    {
        ClientApiCommand::Query
    }
}

/// The controller's consolidated answer to a system-state query.
#[derive(Debug, Clone, PartialEq)]
pub struct SystemState {
    pub sensors: Vec<(String, SensorMeasurement)>,
    pub actuators: Vec<(String, ActuatorState)>,
    pub new_sensors: Vec<String>,
    pub new_actuators: Vec<String>,
}

/// Ghost model of a system-state snapshot.
pub ghost struct SystemStateV {
    pub sensors: Seq<(Seq<char>, SensorMeasurementV)>,
    pub actuators: Seq<(Seq<char>, ActuatorState)>,
    pub new_sensors: Seq<Seq<char>>,
    pub new_actuators: Seq<Seq<char>>,
}

impl View for SystemState {
    type V = SystemStateV;

    open spec fn view(&self) -> SystemStateV {
        SystemStateV {
            sensors: self.sensors@.map_values(|p: (String, SensorMeasurement)| (p.0@, p.1@)),
            actuators: self.actuators@.map_values(|p: (String, ActuatorState)| (p.0@, p.1)),
            new_sensors: self.new_sensors@.map_values(|s: String| s@),
            new_actuators: self.new_actuators@.map_values(|s: String| s@),
        }
    }
}

/// What the controller knows about one registered entity.
#[derive(Debug, Clone, PartialEq)]
pub enum EntityState {
    Sensor(SensorMeasurement),
    Actuator(ActuatorState),
    New(EntityType),
}

/// Ghost model of a registry row's state.
pub ghost enum EntityStateV {
    Sensor(SensorMeasurementV),
    Actuator(ActuatorState),
    New(EntityType),
}

impl View for EntityState {
    type V = EntityStateV;

    open spec fn view(&self) -> EntityStateV {
        match self {
            EntityState::Sensor(m) => EntityStateV::Sensor(m@),
            EntityState::Actuator(s) => EntityStateV::Actuator(*s),
            EntityState::New(t) => EntityStateV::New(*t),
        }
    }
}

impl EntityStateV {
    /// The entity type a model state belongs to.
    pub open spec fn spec_entity_type(self) -> EntityType {
        match self {
            EntityStateV::Sensor(_) => EntityType::Sensor,
            EntityStateV::Actuator(_) => EntityType::Actuator,
            EntityStateV::New(t) => t,
        }
    }
}

impl EntityState {
    /// The entity type this state belongs to: samples carry it implicitly,
    /// a fresh entry remembers the type it registered with.
    pub fn entity_type(&self) -> (r: EntityType)
        ensures
            r == self@.spec_entity_type(),
    {
        match self {
            EntityState::Sensor(_) => EntityType::Sensor,
            EntityState::Actuator(_) => EntityType::Actuator,
            EntityState::New(t) => *t,
        }
    }
}

} // verus!
