//! End-to-end scenarios for the controller's decision logic, played out
//! against the registry with a plain placeholder back channel.

use home_automation_core::{
    handle_client_command, handle_discovery, handle_publication, handle_sweep, relay_action_outcome,
    ActuatorState, ClientApiCommand, ClientStep, DiscoveryCommand, EntityDiscoveryCommand,
    EntityState, EntityStatePayload, EntityType, Measurement, NamedEntityState, PublishData,
    Registry, ResponseCode, SensorMeasurement, SubscriptionCommand,
};

fn register_cmd(name: &str, kind: EntityType, port: u32) -> EntityDiscoveryCommand {
    EntityDiscoveryCommand {
        entity_name: name.to_string(),
        entity_type: kind,
        command: DiscoveryCommand::Register { port },
    }
}

#[test]
fn register_then_query_lists_new_sensor() {
    let mut reg: Registry<u32> = Registry::new();
    let (code, sub) = handle_discovery(&mut reg, register_cmd("sen_a", EntityType::Sensor, 4711), Some(7), 1_000);
    assert_eq!(code, ResponseCode::Okay);
    assert_eq!(sub, Some(SubscriptionCommand::Subscribe("/measurement/sen_a".to_string())));

    match handle_client_command(&reg, &ClientApiCommand::system_state_query()) {
        ClientStep::ReplyState(st) => {
            assert!(st.sensors.is_empty());
            assert!(st.actuators.is_empty());
            assert_eq!(st.new_sensors, vec!["sen_a".to_string()]);
            assert!(st.new_actuators.is_empty());
        }
        other => panic!("expected a snapshot, got {other:?}"),
    }
}

#[test]
fn sample_ingestion_moves_sensor_into_map() {
    let mut reg: Registry<u32> = Registry::new();
    handle_discovery(&mut reg, register_cmd("sen_a", EntityType::Sensor, 4711), Some(7), 1_000);

    let measurement = SensorMeasurement {
        unit: "\u{b0}C".to_string(),
        value: Measurement::Temperature { bits: 22.5f32.to_bits() },
    };
    let data = PublishData::Measurement(measurement.clone());
    let r = handle_publication(&mut reg, "/measurement/sen_a", data);
    assert!(r.is_ok());

    match handle_client_command(&reg, &ClientApiCommand::system_state_query()) {
        ClientStep::ReplyState(st) => {
            assert_eq!(st.sensors, vec![("sen_a".to_string(), measurement)]);
            assert!(st.new_sensors.is_empty());
        }
        other => panic!("expected a snapshot, got {other:?}"),
    }
}

#[test]
fn action_is_forwarded_and_reply_relayed() {
    let mut reg: Registry<u32> = Registry::new();
    handle_discovery(&mut reg, register_cmd("act_b", EntityType::Actuator, 4712), Some(9), 1_000);

    let action = ClientApiCommand::Action(NamedEntityState::actuator(
        "act_b".to_string(),
        ActuatorState::light(40.0f32.to_bits()),
    ));
    match handle_client_command(&reg, &action) {
        ClientStep::Forward { name } => {
            assert_eq!(name, "act_b");
            assert_eq!(reg.back_channel(&name), Some(&9));
        }
        other => panic!("expected a forward, got {other:?}"),
    }
    // the entity accepted the update and replied success
    assert_eq!(relay_action_outcome(Some(ResponseCode::Okay)), ResponseCode::Okay);
}

#[test]
fn action_for_unknown_entity_is_an_error() {
    let reg: Registry<u32> = Registry::new();
    let action = ClientApiCommand::Action(NamedEntityState::actuator(
        "act_missing".to_string(),
        ActuatorState::air_conditioning(true),
    ));
    assert_eq!(handle_client_command(&reg, &action), ClientStep::ReplyError);
}

#[test]
fn entity_error_reply_keeps_the_row() {
    let mut reg: Registry<u32> = Registry::new();
    handle_discovery(&mut reg, register_cmd("act_b", EntityType::Actuator, 4712), Some(9), 1_000);

    // the entity rejected the payload; the client sees an error
    assert_eq!(relay_action_outcome(Some(ResponseCode::Error)), ResponseCode::Error);
    // a failed exchange on the back channel is also just an error
    assert_eq!(relay_action_outcome(None), ResponseCode::Error);

    // the row is untouched either way
    match handle_client_command(&reg, &ClientApiCommand::system_state_query()) {
        ClientStep::ReplyState(st) => {
            assert_eq!(st.new_actuators, vec!["act_b".to_string()]);
        }
        other => panic!("expected a snapshot, got {other:?}"),
    }
}

#[test]
fn eviction_after_missed_heartbeats() {
    let mut reg: Registry<u32> = Registry::new();
    handle_discovery(&mut reg, register_cmd("sen_c", EntityType::Sensor, 4713), Some(3), 0);

    // within the threshold nothing happens
    let cmds = handle_sweep(&mut reg, 20_000);
    assert!(cmds.is_empty());
    assert_eq!(reg.len(), 1);

    // one sweep past the threshold evicts and unsubscribes
    let cmds = handle_sweep(&mut reg, 20_001);
    assert_eq!(cmds, vec![SubscriptionCommand::Unsubscribe("/measurement/sen_c".to_string())]);
    assert_eq!(reg.len(), 0);

    match handle_client_command(&reg, &ClientApiCommand::system_state_query()) {
        ClientStep::ReplyState(st) => {
            assert!(st.new_sensors.is_empty());
            assert!(st.sensors.is_empty());
        }
        other => panic!("expected a snapshot, got {other:?}"),
    }
}

#[test]
fn heartbeat_keeps_entity_alive() {
    let mut reg: Registry<u32> = Registry::new();
    handle_discovery(&mut reg, register_cmd("sen_c", EntityType::Sensor, 4713), Some(3), 0);

    let hb = EntityDiscoveryCommand {
        entity_name: "sen_c".to_string(),
        entity_type: EntityType::Sensor,
        command: DiscoveryCommand::Heartbeat,
    };
    let (code, sub) = handle_discovery(&mut reg, hb, None, 9_000);
    assert_eq!(code, ResponseCode::Okay);
    assert!(sub.is_none());

    // 20 s after the refresh the row is still alive
    let cmds = handle_sweep(&mut reg, 29_000);
    assert!(cmds.is_empty());
    assert_eq!(reg.len(), 1);
}

#[test]
fn heartbeat_for_unknown_entity_is_an_error() {
    let mut reg: Registry<u32> = Registry::new();
    let hb = EntityDiscoveryCommand {
        entity_name: "ghost".to_string(),
        entity_type: EntityType::Sensor,
        command: DiscoveryCommand::Heartbeat,
    };
    let (code, _) = handle_discovery(&mut reg, hb, None, 1_000);
    assert_eq!(code, ResponseCode::Error);
}

#[test]
fn duplicate_register_is_refused() {
    let mut reg: Registry<u32> = Registry::new();
    let (first, _) = handle_discovery(&mut reg, register_cmd("sen_a", EntityType::Sensor, 1), Some(1), 0);
    let (second, sub) = handle_discovery(&mut reg, register_cmd("sen_a", EntityType::Sensor, 2), Some(2), 5);
    assert_eq!(first, ResponseCode::Okay);
    assert_eq!(second, ResponseCode::Error);
    assert!(sub.is_none());
    assert_eq!(reg.len(), 1);
    // the surviving row is the first one
    assert_eq!(reg.back_channel(&"sen_a".to_string()), Some(&1));
}

#[test]
fn unregister_removes_row_and_unsubscribes() {
    let mut reg: Registry<u32> = Registry::new();
    handle_discovery(&mut reg, register_cmd("act_b", EntityType::Actuator, 4712), Some(9), 0);
    let unreg = EntityDiscoveryCommand {
        entity_name: "act_b".to_string(),
        entity_type: EntityType::Actuator,
        command: DiscoveryCommand::Unregister,
    };
    let (code, sub) = handle_discovery(&mut reg, unreg.clone(), None, 10);
    assert_eq!(code, ResponseCode::Okay);
    assert_eq!(sub, Some(SubscriptionCommand::Unsubscribe("/actuator_state/act_b".to_string())));
    assert_eq!(reg.len(), 0);

    // a second unregister for the same name is refused
    let (code, sub) = handle_discovery(&mut reg, unreg, None, 20);
    assert_eq!(code, ResponseCode::Error);
    assert!(sub.is_none());
}

#[test]
fn sample_for_unknown_entity_is_dropped() {
    let mut reg: Registry<u32> = Registry::new();
    let data = PublishData::ActuatorState(ActuatorState::air_conditioning(true));
    let r = handle_publication(&mut reg, "/actuator_state/nobody", data);
    assert!(r.is_err());
    assert_eq!(reg.len(), 0);
}

#[test]
fn sample_on_malformed_topic_is_an_error() {
    let mut reg: Registry<u32> = Registry::new();
    handle_discovery(&mut reg, register_cmd("sen_a", EntityType::Sensor, 1), Some(1), 0);
    let m = SensorMeasurement {
        unit: "%".to_string(),
        value: Measurement::Humidity { bits: 55.0f32.to_bits() },
    };
    // a measurement published on an actuator topic does not parse
    let r = handle_publication(&mut reg, "/actuator_state/sen_a", PublishData::Measurement(m));
    assert!(r.is_err());
}

#[test]
fn snapshot_never_lists_a_name_twice() {
    let mut reg: Registry<u32> = Registry::new();
    handle_discovery(&mut reg, register_cmd("sen_a", EntityType::Sensor, 1), Some(1), 0);
    handle_discovery(&mut reg, register_cmd("act_b", EntityType::Actuator, 2), Some(2), 0);
    let m = SensorMeasurement {
        unit: "%".to_string(),
        value: Measurement::Humidity { bits: 40.25f32.to_bits() },
    };
    handle_publication(&mut reg, "/measurement/sen_a", PublishData::Measurement(m)).unwrap();

    match handle_client_command(&reg, &ClientApiCommand::Query) {
        ClientStep::ReplyState(st) => {
            let mut names: Vec<String> = Vec::new();
            names.extend(st.sensors.iter().map(|p| p.0.clone()));
            names.extend(st.actuators.iter().map(|p| p.0.clone()));
            names.extend(st.new_sensors.iter().cloned());
            names.extend(st.new_actuators.iter().cloned());
            let total = names.len();
            names.sort();
            names.dedup();
            assert_eq!(names.len(), total);
            assert_eq!(total, 2);
        }
        other => panic!("expected a snapshot, got {other:?}"),
    }
}

#[test]
fn entity_state_tracks_samples() {
    let mut reg: Registry<u32> = Registry::new();
    handle_discovery(&mut reg, register_cmd("act_b", EntityType::Actuator, 2), Some(2), 0);
    let state = ActuatorState::light(75.5f32.to_bits());
    handle_publication(
        &mut reg,
        "/actuator_state/act_b",
        PublishData::ActuatorState(state),
    )
    .unwrap();
    assert_eq!(
        reg.entity_state(&"act_b".to_string()),
        Some(&EntityState::Actuator(state))
    );
    assert_eq!(reg.entity_state(&"act_b".to_string()).unwrap().entity_type(), EntityType::Actuator);
}
