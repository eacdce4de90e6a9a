//! Core logic of a small home-automation control plane.
//!
//! A central controller tracks a registry of live entities (sensors and
//! actuators), ingests their published samples, forwards client actions over
//! per-entity back channels, and evicts entities whose heartbeats stop.
//! Every message on the fabric is wrapped in a protobuf envelope carrying a
//! string-to-string header map for trace propagation and a typed payload.
//!
//! This crate holds the verified parts: the wire codec, topic handling, the
//! registry with its lifecycle transitions, and the per-task decision logic.
//! Socket I/O, signal handling and telemetry wiring live outside it.

use vstd::prelude::*;

mod client_util;
mod codec;
mod controller;
mod entity;
mod envelope;
mod fabric;
mod messages;
mod parity;
mod registry;
mod system_codec;
mod topics;
mod wire;

pub use client_util::{Border, PayloadTabKind, SendStage, Wrapping};
pub use codec::{
    decode_actuator, decode_client, decode_discovery, decode_measurement, decode_named,
    decode_publish, decode_response, encode_actuator, encode_client, encode_discovery,
    encode_measurement, encode_named, encode_publish, encode_response, lemma_actuator_roundtrip,
    lemma_client_roundtrip, lemma_discovery_roundtrip, lemma_measurement_roundtrip,
    lemma_named_roundtrip, lemma_publish_roundtrip, lemma_response_roundtrip, spec_dec_actuator,
    spec_dec_client, spec_dec_discovery, spec_dec_measurement, spec_dec_named, spec_dec_publish,
    spec_dec_response, spec_enc_actuator, spec_enc_client, spec_enc_discovery,
    spec_enc_measurement, spec_enc_named, spec_enc_publish, spec_enc_response, str_ok, wf_client,
    wf_named, wf_publish,
};
pub use entity::{
    discovery_command, interpret_heartbeat_reply, sensor_handle_incoming, spec_kind_of,
    ActuatorCore, ActuatorKind, HeartbeatSchedule, PublishRetry, PublishStep, SensorKind,
    UpdateError, PUBLISH_FAILURE_LIMIT,
};
pub use envelope::{
    decode_envelope, encode_envelope, headers_ok, lemma_envelope_client_roundtrip,
    lemma_envelope_discovery_roundtrip, lemma_envelope_named_roundtrip,
    lemma_envelope_publish_roundtrip, lemma_envelope_response_roundtrip,
    lemma_envelope_roundtrip, lemma_envelope_system_roundtrip, pack_client, pack_discovery, pack_named, pack_publish,
    pack_response, pack_system, spec_dec_envelope, spec_enc_envelope, spec_header_lookup,
    unpack_client,
    unpack_discovery, unpack_named, unpack_publish, unpack_response, unpack_system, wf_envelope,
    Envelope, EnvelopeV, PackedPayload, PackedPayloadV,
};
pub use fabric::{
    endpoint_port, is_last_colon, spec_digits_value, spec_endpoint_port, spec_is_digits, Detached,
    Linked,
};
pub use messages::{
    ActuatorState, ClientApiCommand, ClientApiCommandV, DiscoveryCommand, EntityDiscoveryCommand,
    EntityDiscoveryCommandV, EntityState, EntityStatePayload, EntityStateV, EntityType,
    Measurement, NamedEntityState, NamedEntityStateV, PublishData, PublishDataV, ResponseCode,
    SensorMeasurement, SensorMeasurementV, SystemState, SystemStateV,
};
pub use controller::{
    handle_client_command, handle_discovery, handle_publication, handle_sweep,
    register_endpoint, relay_action_outcome, ClientStep, PublicationError, SubscriptionCommand,
    SubscriptionCommandV,
};
pub use parity::{
    lemma_step_preserves_parity, lemma_subscription_parity, set_topics, spec_run_rows,
    spec_run_subs, spec_step_rows, spec_step_subs, LifecycleEvent,
};
pub use registry::{
    bucket_count, contains_name, count_name, idx_of, in_actuators, in_new_actuators,
    in_new_sensors, in_sensors, lemma_register_uniqueness, lemma_snapshot_consistent,
    lemma_sweep_liveness, lemma_unique_names_filter, name_in_pairs, spec_keep, spec_snapshot,
    unique_names, Registry,
    RegistryError, Row, RowV, EVICTION_THRESHOLD_MS,
};
pub use system_codec::{
    decode_system, encode_system, lemma_system_roundtrip, spec_dec_system, spec_enc_system,
    wf_system,
};
pub use topics::{
    actuator_name, actuator_state_topic, entity_topic, lemma_actuator_topic_roundtrip,
    lemma_entity_topic_injective, lemma_sensor_topic_roundtrip, sensor_measurement_topic,
    sensor_name, spec_actuator_name,
    spec_actuator_topic, spec_entity_topic, spec_sensor_name, spec_sensor_topic,
};

verus! {

/// Interval between entity heartbeats, in milliseconds.
pub const HEARTBEAT_FREQUENCY_MS: u64 = 10_000;

} // verus!
