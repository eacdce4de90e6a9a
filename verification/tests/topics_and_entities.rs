//! Topics, client helpers and the entity-side protocol logic on concrete
//! values.

use home_automation_core::{
    actuator_name, actuator_state_topic, discovery_command, endpoint_port, entity_topic,
    interpret_heartbeat_reply, register_endpoint, sensor_handle_incoming,
    sensor_measurement_topic, sensor_name, ActuatorCore, ActuatorKind, ActuatorState, Border,
    DiscoveryCommand, EntityStatePayload, EntityType, HeartbeatSchedule, Measurement,
    NamedEntityState, PayloadTabKind, PublishData, PublishRetry, PublishStep, ResponseCode,
    SensorKind, UpdateError, Wrapping,
};

#[test]
fn sensor_topic_roundtrip() {
    let topic = sensor_measurement_topic("sen_a");
    assert_eq!(topic, "/measurement/sen_a");
    assert_eq!(sensor_name(&topic), Some("sen_a".to_string()));
    assert_eq!(actuator_name(&topic), None);
}

#[test]
fn actuator_topic_roundtrip() {
    let topic = actuator_state_topic("act_b");
    assert_eq!(topic, "/actuator_state/act_b");
    assert_eq!(actuator_name(&topic), Some("act_b".to_string()));
    assert_eq!(sensor_name(&topic), None);
}

#[test]
fn malformed_topics_are_refused() {
    assert_eq!(sensor_name("/measurements/sen_a"), None);
    assert_eq!(sensor_name("measurement/sen_a"), None);
    assert_eq!(sensor_name(""), None);
    assert_eq!(actuator_name("/actuator/act_b"), None);
}

#[test]
fn entity_topic_follows_the_type() {
    assert_eq!(entity_topic("x", EntityType::Sensor), "/measurement/x");
    assert_eq!(entity_topic("x", EntityType::Actuator), "/actuator_state/x");
}

#[test]
fn register_endpoint_builds_tcp_address() {
    assert_eq!(register_endpoint("10.0.0.2", "4711"), "tcp://10.0.0.2:4711");
}

#[test]
fn endpoint_port_reads_the_digits_after_the_last_colon() {
    assert_eq!(endpoint_port("tcp://10.0.0.2:4711"), Some(4711));
    assert_eq!(endpoint_port("tcp://0.0.0.0:65535"), Some(65535));
    assert_eq!(endpoint_port("tcp://0.0.0.0:65536"), None);
    assert_eq!(endpoint_port("tcp://0.0.0.0:"), None);
    assert_eq!(endpoint_port("tcp://0.0.0.0:4711x"), None);
    assert_eq!(endpoint_port("no colon here"), None);
}

#[test]
fn discovery_command_carries_the_identity() {
    let cmd = discovery_command("sen_a", EntityType::Sensor, DiscoveryCommand::Heartbeat);
    assert_eq!(cmd.entity_name, "sen_a");
    assert_eq!(cmd.entity_type, EntityType::Sensor);
    assert_eq!(cmd.command, DiscoveryCommand::Heartbeat);
}

#[test]
fn sensor_accepts_only_its_own_configuration() {
    let config = NamedEntityState::frequency("sen_a".to_string(), 2.0f32.to_bits());
    assert_eq!(sensor_handle_incoming("sen_a", &config), Ok(2.0f32.to_bits()));

    let misaddressed = NamedEntityState::frequency("sen_b".to_string(), 2.0f32.to_bits());
    assert_eq!(sensor_handle_incoming("sen_a", &misaddressed), Err(UpdateError::WrongEntity));

    let wrong_payload = NamedEntityState::actuator(
        "sen_a".to_string(),
        ActuatorState::air_conditioning(true),
    );
    assert_eq!(sensor_handle_incoming("sen_a", &wrong_payload), Err(UpdateError::InvalidPayload));
}

#[test]
fn actuator_applies_matching_state() {
    let mut act = ActuatorCore::new("act_b".to_string(), ActuatorKind::Light);
    let update = NamedEntityState::actuator(
        "act_b".to_string(),
        ActuatorState::light(40.0f32.to_bits()),
    );
    assert_eq!(act.handle_incoming(&update), Ok(None));
    assert_eq!(act.state, ActuatorState::light(40.0f32.to_bits()));
    assert_eq!(
        act.publish_data(),
        PublishData::ActuatorState(ActuatorState::light(40.0f32.to_bits()))
    );
}

#[test]
fn actuator_rejects_incompatible_kind() {
    let mut act = ActuatorCore::new("act_b".to_string(), ActuatorKind::Light);
    let before = act.state;
    let update = NamedEntityState::actuator(
        "act_b".to_string(),
        ActuatorState::air_conditioning(true),
    );
    assert_eq!(act.handle_incoming(&update), Err(UpdateError::IncompatibleKind));
    assert_eq!(act.state, before);
}

#[test]
fn actuator_takes_frequency_updates() {
    let mut act = ActuatorCore::new("act_b".to_string(), ActuatorKind::AirConditioning);
    let update = NamedEntityState {
        entity_name: "act_b".to_string(),
        state: EntityStatePayload::SensorConfiguration { update_frequency_hz: 0.5f32.to_bits() },
    };
    assert_eq!(act.handle_incoming(&update), Ok(Some(0.5f32.to_bits())));
}

#[test]
fn kind_names_parse_back() {
    assert_eq!(SensorKind::from_name("Humidity"), Some(SensorKind::Humidity));
    assert_eq!(SensorKind::from_name("Temperature"), Some(SensorKind::Temperature));
    assert_eq!(SensorKind::from_name("Pressure"), None);
    assert_eq!(SensorKind::Humidity.label(), "Humidity");
    assert_eq!(SensorKind::list_allowed(), "Allowed values: Humidity, Temperature");

    assert_eq!(ActuatorKind::from_name("Light"), Some(ActuatorKind::Light));
    assert_eq!(ActuatorKind::from_name("AirConditioning"), Some(ActuatorKind::AirConditioning));
    assert_eq!(ActuatorKind::from_name("Heater"), None);
    assert_eq!(ActuatorKind::list_allowed(), "Allowed values: AirConditioning, Light");
}

#[test]
fn sensor_measurement_units_follow_the_kind() {
    let m = SensorKind::Temperature.measurement(22.5f32.to_bits());
    assert_eq!(m.unit, "\u{b0}C");
    assert_eq!(m.value, Measurement::Temperature { bits: 22.5f32.to_bits() });
    let m = SensorKind::Humidity.measurement(55.0f32.to_bits());
    assert_eq!(m.unit, "%");
    assert_eq!(m.value, Measurement::Humidity { bits: 55.0f32.to_bits() });
}

#[test]
fn heartbeat_schedule_fires_every_interval() {
    let mut hb = HeartbeatSchedule::new(0);
    assert!(!hb.due(9_999));
    assert!(hb.due(10_000));
    hb.sent(10_000);
    assert!(!hb.due(19_999));
    assert!(hb.due(20_000));
}

#[test]
fn heartbeat_error_reply_means_shutdown() {
    assert_eq!(interpret_heartbeat_reply(ResponseCode::Okay), Ok(()));
    assert_eq!(interpret_heartbeat_reply(ResponseCode::Error), Err(()));
}

#[test]
fn publisher_gives_up_after_three_consecutive_failures() {
    let mut retry = PublishRetry::new();
    assert_eq!(retry.step(false), PublishStep::Continue);
    assert_eq!(retry.step(false), PublishStep::Continue);
    assert_eq!(retry.step(false), PublishStep::GiveUp);

    // a success in between resets the count
    let mut retry = PublishRetry::new();
    assert_eq!(retry.step(false), PublishStep::Continue);
    assert_eq!(retry.step(false), PublishStep::Continue);
    assert_eq!(retry.step(true), PublishStep::Continue);
    assert_eq!(retry.step(false), PublishStep::Continue);
    assert_eq!(retry.step(false), PublishStep::Continue);
    assert_eq!(retry.step(false), PublishStep::GiveUp);
}

#[test]
fn wrapping_cursor_wraps_at_both_ends() {
    let c = Wrapping::new(0, 2);
    assert_eq!(c.current(), 0);
    assert_eq!(c.inc().current(), 1);
    assert_eq!(c.inc().inc().current(), 2);
    assert_eq!(c.inc().inc().inc().current(), 0);
    assert_eq!(c.dec().current(), 2);
    assert_eq!(c.dec().dec().current(), 1);
}

#[test]
fn payload_tabs_cycle_through_all() {
    let all = PayloadTabKind::all();
    assert_eq!(
        all,
        vec![
            PayloadTabKind::UpdateFrequency,
            PayloadTabKind::Light,
            PayloadTabKind::AirConditioning,
        ]
    );
    let mut tab = PayloadTabKind::UpdateFrequency;
    for expected in [
        PayloadTabKind::Light,
        PayloadTabKind::AirConditioning,
        PayloadTabKind::UpdateFrequency,
    ] {
        tab = tab.cycle(true);
        assert_eq!(tab, expected);
    }
    assert_eq!(PayloadTabKind::UpdateFrequency.cycle(false), PayloadTabKind::AirConditioning);
}

#[test]
fn borders_highlight_only_when_focused() {
    assert_eq!(Border::Blue.highlighted(true), Border::Blue);
    assert_eq!(Border::Blue.highlighted(false), Border::NoHighlight);
    assert!(Border::Magenta.is_highlighted());
    assert!(!Border::NoHighlight.is_highlighted());
}
