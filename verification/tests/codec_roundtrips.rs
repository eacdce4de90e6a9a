//! Concrete round trips through the wire codec: every message kind, the
//! envelope around them, and malformed buffers.

use home_automation_core::{
    decode_actuator, decode_client, decode_discovery, decode_envelope, decode_measurement,
    decode_named, decode_publish, decode_response, decode_system, encode_actuator, encode_client,
    encode_discovery, encode_envelope, encode_measurement, encode_named, encode_publish,
    encode_response, encode_system, pack_discovery, pack_publish, unpack_discovery,
    unpack_publish, ActuatorState, ClientApiCommand, DiscoveryCommand, EntityDiscoveryCommand,
    EntityStatePayload, EntityType, Envelope, Measurement, NamedEntityState, PublishData,
    ResponseCode, SensorMeasurement, SystemState,
};

fn sample_measurement() -> SensorMeasurement {
    SensorMeasurement {
        unit: "\u{b0}C".to_string(),
        value: Measurement::Temperature { bits: 22.5f32.to_bits() },
    }
}

#[test]
fn response_code_roundtrip() {
    for code in [ResponseCode::Okay, ResponseCode::Error] {
        let bytes = encode_response(&code);
        assert_eq!(decode_response(&bytes), Some(code));
    }
}

#[test]
fn discovery_roundtrip_all_commands() {
    for command in [
        DiscoveryCommand::Register { port: 54321 },
        DiscoveryCommand::Heartbeat,
        DiscoveryCommand::Unregister,
    ] {
        let cmd = EntityDiscoveryCommand {
            entity_name: "sen_a".to_string(),
            entity_type: EntityType::Sensor,
            command,
        };
        let bytes = encode_discovery(&cmd);
        assert_eq!(decode_discovery(&bytes), Some(cmd));
    }
}

#[test]
fn measurement_roundtrip() {
    let m = sample_measurement();
    let bytes = encode_measurement(&m);
    assert_eq!(decode_measurement(&bytes), Some(m));

    let h = SensorMeasurement {
        unit: "%".to_string(),
        value: Measurement::Humidity { bits: 61.75f32.to_bits() },
    };
    let bytes = encode_measurement(&h);
    assert_eq!(decode_measurement(&bytes), Some(h));
}

#[test]
fn actuator_roundtrip() {
    for state in [
        ActuatorState::light(40.0f32.to_bits()),
        ActuatorState::air_conditioning(true),
        ActuatorState::air_conditioning(false),
    ] {
        let bytes = encode_actuator(&state);
        assert_eq!(decode_actuator(&bytes), Some(state));
    }
}

#[test]
fn publish_roundtrip() {
    let d = PublishData::Measurement(sample_measurement());
    let bytes = encode_publish(&d);
    assert_eq!(decode_publish(&bytes), Some(d));

    let d = PublishData::ActuatorState(ActuatorState::light(12.0f32.to_bits()));
    let bytes = encode_publish(&d);
    assert_eq!(decode_publish(&bytes), Some(d));
}

#[test]
fn named_state_roundtrip() {
    let n = NamedEntityState::actuator("act_b".to_string(), ActuatorState::light(40.0f32.to_bits()));
    let bytes = encode_named(&n);
    assert_eq!(decode_named(&bytes), Some(n));

    let n = NamedEntityState::frequency("sen_a".to_string(), 2.0f32.to_bits());
    let bytes = encode_named(&n);
    assert_eq!(decode_named(&bytes), Some(n));
}

#[test]
fn client_command_roundtrip() {
    let q = ClientApiCommand::system_state_query();
    let bytes = encode_client(&q);
    assert_eq!(decode_client(&bytes), Some(q));

    let a = ClientApiCommand::Action(NamedEntityState {
        entity_name: "act_b".to_string(),
        state: EntityStatePayload::ActuatorState(ActuatorState::air_conditioning(true)),
    });
    let bytes = encode_client(&a);
    assert_eq!(decode_client(&bytes), Some(a));
}

#[test]
fn system_state_roundtrip() {
    let st = SystemState {
        sensors: vec![("sen_a".to_string(), sample_measurement())],
        actuators: vec![("act_b".to_string(), ActuatorState::air_conditioning(false))],
        new_sensors: vec!["sen_c".to_string()],
        new_actuators: vec![],
    };
    let bytes = encode_system(&st);
    assert_eq!(decode_system(&bytes), Some(st));
}

#[test]
fn empty_system_state_roundtrip() {
    let st = SystemState { sensors: vec![], actuators: vec![], new_sensors: vec![], new_actuators: vec![] };
    let bytes = encode_system(&st);
    assert!(bytes.is_empty());
    assert_eq!(decode_system(&bytes), Some(st));
}

#[test]
fn envelope_roundtrip_keeps_headers_and_payload() {
    let cmd = EntityDiscoveryCommand {
        entity_name: "sen_a".to_string(),
        entity_type: EntityType::Sensor,
        command: DiscoveryCommand::Register { port: 4711 },
    };
    let mut env = Envelope::new(pack_discovery(&cmd));
    env.set_header("traceparent".to_string(), "00-abc-def-01".to_string());
    env.set_header("tracestate".to_string(), "vendor=1".to_string());

    let bytes = encode_envelope(&env);
    let back = decode_envelope(&bytes).expect("the envelope must decode");
    assert_eq!(back, env);
    assert_eq!(unpack_discovery(&back.payload), Some(cmd));
}

#[test]
fn header_lookup_finds_the_first_entry() {
    let d = PublishData::ActuatorState(ActuatorState::air_conditioning(true));
    let mut env = Envelope::new(pack_publish(&d));
    env.set_header("traceparent".to_string(), "00-abc-def-01".to_string());
    env.set_header("other".to_string(), "x".to_string());
    assert_eq!(env.header(&"traceparent".to_string()), Some(&"00-abc-def-01".to_string()));
    assert_eq!(env.header(&"missing".to_string()), None);
}

#[test]
fn envelope_with_no_headers_roundtrip() {
    let d = PublishData::Measurement(sample_measurement());
    let env = Envelope::new(pack_publish(&d));
    let bytes = encode_envelope(&env);
    let back = decode_envelope(&bytes).expect("the envelope must decode");
    assert!(back.headers.is_empty());
    assert_eq!(unpack_publish(&back.payload), Some(d));
}

#[test]
fn unpack_checks_the_type_name() {
    let d = PublishData::ActuatorState(ActuatorState::light(1.0f32.to_bits()));
    let packed = pack_publish(&d);
    // the payload is a sample, not a discovery request
    assert_eq!(unpack_discovery(&packed), None);
    assert_eq!(unpack_publish(&packed), Some(d));
}

#[test]
fn truncated_buffers_are_refused() {
    let cmd = EntityDiscoveryCommand {
        entity_name: "sen_a".to_string(),
        entity_type: EntityType::Sensor,
        command: DiscoveryCommand::Heartbeat,
    };
    let bytes = encode_discovery(&cmd);
    for cut in 0..bytes.len() {
        let prefix: Vec<u8> = bytes[..cut].to_vec();
        assert_eq!(decode_discovery(&prefix), None, "a prefix of length {cut} must not decode");
    }
}

#[test]
fn trailing_garbage_is_refused() {
    let code = ResponseCode::Okay;
    let mut bytes = encode_response(&code);
    bytes.push(0);
    assert_eq!(decode_response(&bytes), None);
}

#[test]
fn invalid_utf8_in_a_name_is_refused() {
    let cmd = EntityDiscoveryCommand {
        entity_name: "ab".to_string(),
        entity_type: EntityType::Sensor,
        command: DiscoveryCommand::Heartbeat,
    };
    let mut bytes = encode_discovery(&cmd);
    // the name's bytes start after the field tag and length; 0xFF is never
    // valid UTF-8
    assert_eq!(bytes[2], b'a');
    bytes[2] = 0xFF;
    assert_eq!(decode_discovery(&bytes), None);
}

#[test]
fn wrong_enum_value_is_refused() {
    let cmd = EntityDiscoveryCommand {
        entity_name: "x".to_string(),
        entity_type: EntityType::Actuator,
        command: DiscoveryCommand::Heartbeat,
    };
    let mut bytes = encode_discovery(&cmd);
    // the entity-type field holds 1 for an actuator; 7 names no type
    let pos = bytes.iter().position(|&b| b == 0x10).unwrap();
    assert_eq!(bytes[pos + 1], 1);
    bytes[pos + 1] = 7;
    assert_eq!(decode_discovery(&bytes), None);
}

#[test]
fn long_names_need_multi_byte_length_prefixes() {
    // a 200-character name makes the string field's length prefix two bytes
    let name: String = "n".repeat(200);
    let cmd = EntityDiscoveryCommand {
        entity_name: name,
        entity_type: EntityType::Sensor,
        command: DiscoveryCommand::Register { port: 0 },
    };
    let bytes = encode_discovery(&cmd);
    assert_eq!(decode_discovery(&bytes), Some(cmd));

    let env = Envelope::new(pack_discovery(&EntityDiscoveryCommand {
        entity_name: "x".repeat(300),
        entity_type: EntityType::Actuator,
        command: DiscoveryCommand::Unregister,
    }));
    let bytes = encode_envelope(&env);
    assert_eq!(decode_envelope(&bytes), Some(env));
}

#[test]
fn large_port_uses_a_long_varint() {
    let cmd = EntityDiscoveryCommand {
        entity_name: "s".to_string(),
        entity_type: EntityType::Sensor,
        command: DiscoveryCommand::Register { port: u32::MAX },
    };
    let bytes = encode_discovery(&cmd);
    assert_eq!(decode_discovery(&bytes), Some(cmd));
}
