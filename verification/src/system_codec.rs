//! Wire codec of the system-state snapshot: two string-keyed maps, encoded
//! as repeated key-value entry submessages, and two repeated string fields.

use vstd::prelude::*;

use crate::codec::{
    decode_actuator, decode_measurement, encode_actuator, encode_measurement, encode_msg_fld,
    encode_str_fld, lemma_actuator_roundtrip, lemma_measurement_roundtrip,
    lemma_msg_fld_roundtrip, lemma_str_fld_roundtrip, read_msg_fld, read_str_fld,
    spec_dec_actuator, spec_dec_measurement, spec_enc_actuator, spec_enc_measurement,
    spec_msg_fld, spec_parse_msg_fld, spec_parse_str_fld, spec_str_fld, str_ok,
};
use crate::messages::{
    ActuatorState, SensorMeasurement, SensorMeasurementV, SystemState, SystemStateV,
};

verus! {

/// The canonical encoding of one sensor-map entry.
pub open spec fn spec_enc_sensor_entry(kv: (Seq<char>, SensorMeasurementV)) -> Seq<u8> {
    spec_msg_fld(0x0A, spec_str_fld(0x0A, kv.0) + spec_msg_fld(0x12, spec_enc_measurement(kv.1)))
}

/// The canonical encoding of one actuator-map entry.
pub open spec fn spec_enc_actuator_entry(kv: (Seq<char>, ActuatorState)) -> Seq<u8> {
    spec_msg_fld(0x12, spec_str_fld(0x0A, kv.0) + spec_msg_fld(0x12, spec_enc_actuator(kv.1)))
}

/// Decode one sensor-map entry body; consumed exactly.
pub open spec fn spec_dec_sensor_entry(s: Seq<u8>) -> Option<(Seq<char>, SensorMeasurementV)> {
    match spec_parse_str_fld(s, 0x0A) {
        None => None,
        Some((key, k1)) => {
            match spec_parse_msg_fld(s.skip(k1), 0x12) {
                None => None,
                Some((body, k2)) => if k1 + k2 == s.len() {
                    match spec_dec_measurement(body) {
                        Some(m) => Some((key, m)),
                        None => None,
                    }
                } else {
                    None
                },
            }
        },
    }
}

/// Decode one actuator-map entry body; consumed exactly.
pub open spec fn spec_dec_actuator_entry(s: Seq<u8>) -> Option<(Seq<char>, ActuatorState)> {
    match spec_parse_str_fld(s, 0x0A) {
        None => None,
        Some((key, k1)) => {
            match spec_parse_msg_fld(s.skip(k1), 0x12) {
                None => None,
                Some((body, k2)) => if k1 + k2 == s.len() {
                    match spec_dec_actuator(body) {
                        Some(a) => Some((key, a)),
                        None => None,
                    }
                } else {
                    None
                },
            }
        },
    }
}

/// The encoding of the sensor map, entry by entry.
pub open spec fn spec_enc_sensors(xs: Seq<(Seq<char>, SensorMeasurementV)>) -> Seq<u8>
    decreases xs.len(),
{
    if xs.len() == 0 {
        Seq::empty()
    } else {
        spec_enc_sensor_entry(xs.first()) + spec_enc_sensors(xs.drop_first())
    }
}

/// The encoding of the actuator map, entry by entry.
pub open spec fn spec_enc_actuators(xs: Seq<(Seq<char>, ActuatorState)>) -> Seq<u8>
    decreases xs.len(),
{
    if xs.len() == 0 {
        Seq::empty()
    } else {
        spec_enc_actuator_entry(xs.first()) + spec_enc_actuators(xs.drop_first())
    }
}

/// The encoding of a repeated string field.
pub open spec fn spec_enc_names(tag: u8, xs: Seq<Seq<char>>) -> Seq<u8>
    decreases xs.len(),
{
    if xs.len() == 0 {
        Seq::empty()
    } else {
        spec_str_fld(tag, xs.first()) + spec_enc_names(tag, xs.drop_first())
    }
}

/// Parse sensor-map entries until the next field is something else.
pub open spec fn spec_parse_sensors(s: Seq<u8>) -> Option<
    (Seq<(Seq<char>, SensorMeasurementV)>, int),
>
    decreases s.len(),
{
    if s.len() >= 1 && s[0] == 0x0A {
        match spec_parse_msg_fld(s, 0x0A) {
            None => None,
            Some((body, k)) => {
                match spec_dec_sensor_entry(body) {
                    None => None,
                    Some(kv) => if 1 <= k <= s.len() {
                        match spec_parse_sensors(s.skip(k)) {
                            Some((rest, k2)) => Some((seq![kv] + rest, k + k2)),
                            None => None,
                        }
                    } else {
                        None
                    },
                }
            },
        }
    } else {
        Some((Seq::empty(), 0))
    }
}

/// Parse actuator-map entries until the next field is something else.
pub open spec fn spec_parse_actuators(s: Seq<u8>) -> Option<
    (Seq<(Seq<char>, ActuatorState)>, int),
>
    decreases s.len(),
{
    if s.len() >= 1 && s[0] == 0x12 {
        match spec_parse_msg_fld(s, 0x12) {
            None => None,
            Some((body, k)) => {
                match spec_dec_actuator_entry(body) {
                    None => None,
                    Some(kv) => if 1 <= k <= s.len() {
                        match spec_parse_actuators(s.skip(k)) {
                            Some((rest, k2)) => Some((seq![kv] + rest, k + k2)),
                            None => None,
                        }
                    } else {
                        None
                    },
                }
            },
        }
    } else {
        Some((Seq::empty(), 0))
    }
}

/// Parse a repeated string field until the next field is something else.
pub open spec fn spec_parse_names(s: Seq<u8>, tag: u8) -> Option<(Seq<Seq<char>>, int)>
    decreases s.len(),
{
    if s.len() >= 1 && s[0] == tag {
        match spec_parse_str_fld(s, tag) {
            None => None,
            Some((name, k)) => if 1 <= k <= s.len() {
                match spec_parse_names(s.skip(k), tag) {
                    Some((rest, k2)) => Some((seq![name] + rest, k + k2)),
                    None => None,
                }
            } else {
                None
            },
        }
    } else {
        Some((Seq::empty(), 0))
    }
}

/// Every string in a sensor map is small enough to encode.
pub open spec fn sensors_ok(xs: Seq<(Seq<char>, SensorMeasurementV)>) -> bool {
    forall|i: int|
        0 <= i < xs.len() ==> str_ok(#[trigger] xs[i].0) && str_ok(xs[i].1.unit)
}

/// Every string in an actuator map is small enough to encode.
pub open spec fn actuators_ok(xs: Seq<(Seq<char>, ActuatorState)>) -> bool {
    forall|i: int| 0 <= i < xs.len() ==> str_ok(#[trigger] xs[i].0)
}

/// Every name in a list is small enough to encode.
pub open spec fn names_ok(xs: Seq<Seq<char>>) -> bool {
    forall|i: int| 0 <= i < xs.len() ==> str_ok(#[trigger] xs[i])
}

/// Every string in a snapshot is small enough to encode.
pub open spec fn wf_system(st: SystemStateV) -> bool {
    &&& sensors_ok(st.sensors)
    &&& actuators_ok(st.actuators)
    &&& names_ok(st.new_sensors)
    &&& names_ok(st.new_actuators)
}

/// The canonical encoding of a snapshot: the four sections in field order.
pub open spec fn spec_enc_system(st: SystemStateV) -> Seq<u8> {
    spec_enc_sensors(st.sensors) + spec_enc_actuators(st.actuators) + spec_enc_names(
        0x1A,
        st.new_sensors,
    ) + spec_enc_names(0x22, st.new_actuators)
}

/// Decode a snapshot; the buffer must be consumed exactly.
pub open spec fn spec_dec_system(s: Seq<u8>) -> Option<SystemStateV> {
    match spec_parse_sensors(s) {
        None => None,
        Some((sensors, k1)) => {
            match spec_parse_actuators(s.skip(k1)) {
                None => None,
                Some((actuators, k2)) => {
                    match spec_parse_names(s.skip(k1 + k2), 0x1A) {
                        None => None,
                        Some((new_sensors, k3)) => {
                            match spec_parse_names(s.skip(k1 + k2 + k3), 0x22) {
                                None => None,
                                Some((new_actuators, k4)) => if k1 + k2 + k3 + k4 == s.len() {
                                    Some(
                                        SystemStateV {
                                            sensors,
                                            actuators,
                                            new_sensors,
                                            new_actuators,
                                        },
                                    )
                                } else {
                                    None
                                },
                            }
                        },
                    }
                },
            }
        },
    }
}

/// Sensor-entry round trip, and the entry's shape.
proof fn lemma_sensor_entry_roundtrip(kv: (Seq<char>, SensorMeasurementV), rest: Seq<u8>)
    requires
        str_ok(kv.0),
        str_ok(kv.1.unit),
    ensures
        spec_parse_msg_fld(spec_enc_sensor_entry(kv) + rest, 0x0A) matches Some(p) && p.1
            == spec_enc_sensor_entry(kv).len() && spec_dec_sensor_entry(p.0) == Some(kv),
        spec_enc_sensor_entry(kv).len() >= 2,
        spec_enc_sensor_entry(kv)[0] == 0x0A,
{
    let inner = spec_msg_fld(0x12, spec_enc_measurement(kv.1));
    let body = spec_str_fld(0x0A, kv.0) + inner;
    crate::codec::lemma_enc_measurement_len(kv.1);
    crate::codec::lemma_msg_fld_len(0x12, spec_enc_measurement(kv.1));
    crate::codec::lemma_str_fld_len(0x0A, kv.0);
    lemma_msg_fld_roundtrip(0x12, spec_enc_measurement(kv.1), Seq::empty());
    assert(inner + Seq::<u8>::empty() =~= inner);
    lemma_str_fld_roundtrip(0x0A, kv.0, inner);
    assert(body.skip(spec_str_fld(0x0A, kv.0).len() as int) =~= inner);
    lemma_measurement_roundtrip(kv.1);
    lemma_msg_fld_roundtrip(0x0A, body, rest);
}

/// Actuator-entry round trip, and the entry's shape.
proof fn lemma_actuator_entry_roundtrip(kv: (Seq<char>, ActuatorState), rest: Seq<u8>)
    requires
        str_ok(kv.0),
    ensures
        spec_parse_msg_fld(spec_enc_actuator_entry(kv) + rest, 0x12) matches Some(p) && p.1
            == spec_enc_actuator_entry(kv).len() && spec_dec_actuator_entry(p.0) == Some(kv),
        spec_enc_actuator_entry(kv).len() >= 2,
        spec_enc_actuator_entry(kv)[0] == 0x12,
{
    let inner = spec_msg_fld(0x12, spec_enc_actuator(kv.1));
    let body = spec_str_fld(0x0A, kv.0) + inner;
    crate::codec::lemma_enc_actuator_len(kv.1);
    crate::codec::lemma_msg_fld_len(0x12, spec_enc_actuator(kv.1));
    crate::codec::lemma_str_fld_len(0x0A, kv.0);
    lemma_msg_fld_roundtrip(0x12, spec_enc_actuator(kv.1), Seq::empty());
    assert(inner + Seq::<u8>::empty() =~= inner);
    lemma_str_fld_roundtrip(0x0A, kv.0, inner);
    assert(body.skip(spec_str_fld(0x0A, kv.0).len() as int) =~= inner);
    lemma_actuator_roundtrip(kv.1);
    lemma_msg_fld_roundtrip(0x12, body, rest);
}

/// Sensor-map round trip: parsing stops exactly where the entries end.
#[verifier::rlimit(100)]
#[verifier::spinoff_prover]
proof fn lemma_sensors_roundtrip(xs: Seq<(Seq<char>, SensorMeasurementV)>, rest: Seq<u8>)
    requires
        sensors_ok(xs),
        rest.len() == 0 || rest[0] != 0x0A,
    ensures
        spec_parse_sensors(spec_enc_sensors(xs) + rest) == Some(
            (xs, spec_enc_sensors(xs).len() as int),
        ),
    decreases xs.len(),
{
    let s = spec_enc_sensors(xs) + rest;
    if xs.len() == 0 {
        assert(s =~= rest);
    } else {
        let kv = xs.first();
        let entry = spec_enc_sensor_entry(kv);
        let tail = spec_enc_sensors(xs.drop_first());
        assert(s =~= entry + (tail + rest));
        lemma_sensor_entry_roundtrip(kv, tail + rest);
        assert(s[0] == 0x0A);
        assert(s.skip(entry.len() as int) =~= tail + rest);
        assert(sensors_ok(xs.drop_first())) by {
            assert(forall|i: int|
                0 <= i < xs.drop_first().len() ==> xs.drop_first()[i] == xs[i + 1]);
        }
        lemma_sensors_roundtrip(xs.drop_first(), rest);
        assert(seq![kv] + xs.drop_first() =~= xs);
    }
}

/// Actuator-map round trip.
#[verifier::rlimit(100)]
#[verifier::spinoff_prover]
proof fn lemma_actuators_roundtrip(xs: Seq<(Seq<char>, ActuatorState)>, rest: Seq<u8>)
    requires
        actuators_ok(xs),
        rest.len() == 0 || rest[0] != 0x12,
    ensures
        spec_parse_actuators(spec_enc_actuators(xs) + rest) == Some(
            (xs, spec_enc_actuators(xs).len() as int),
        ),
    decreases xs.len(),
{
    let s = spec_enc_actuators(xs) + rest;
    if xs.len() == 0 {
        assert(s =~= rest);
    } else {
        let kv = xs.first();
        let entry = spec_enc_actuator_entry(kv);
        let tail = spec_enc_actuators(xs.drop_first());
        assert(s =~= entry + (tail + rest));
        lemma_actuator_entry_roundtrip(kv, tail + rest);
        assert(s[0] == 0x12);
        assert(s.skip(entry.len() as int) =~= tail + rest);
        assert(actuators_ok(xs.drop_first())) by {
            assert(forall|i: int|
                0 <= i < xs.drop_first().len() ==> xs.drop_first()[i] == xs[i + 1]);
        }
        lemma_actuators_roundtrip(xs.drop_first(), rest);
        assert(seq![kv] + xs.drop_first() =~= xs);
    }
}

/// Repeated-string round trip.
proof fn lemma_names_roundtrip(tag: u8, xs: Seq<Seq<char>>, rest: Seq<u8>)
    requires
        names_ok(xs),
        rest.len() == 0 || rest[0] != tag,
    ensures
        spec_parse_names(spec_enc_names(tag, xs) + rest, tag) == Some(
            (xs, spec_enc_names(tag, xs).len() as int),
        ),
    decreases xs.len(),
{
    let s = spec_enc_names(tag, xs) + rest;
    if xs.len() == 0 {
        assert(s =~= rest);
    } else {
        let name = xs.first();
        let entry = spec_str_fld(tag, name);
        let tail = spec_enc_names(tag, xs.drop_first());
        assert(s =~= entry + (tail + rest));
        lemma_str_fld_roundtrip(tag, name, tail + rest);
        assert(s[0] == tag);
        assert(s.skip(entry.len() as int) =~= tail + rest);
        assert(names_ok(xs.drop_first())) by {
            assert(forall|i: int|
                0 <= i < xs.drop_first().len() ==> xs.drop_first()[i] == xs[i + 1]);
        }
        lemma_names_roundtrip(tag, xs.drop_first(), rest);
        assert(seq![name] + xs.drop_first() =~= xs);
    }
}

/// The first byte of a nonempty section is its tag.
proof fn lemma_section_first_bytes(st: SystemStateV)
    requires
        wf_system(st),
    ensures
        spec_enc_actuators(st.actuators).len() > 0 ==> spec_enc_actuators(st.actuators)[0]
            == 0x12,
        spec_enc_names(0x1A, st.new_sensors).len() > 0 ==> spec_enc_names(
            0x1A,
            st.new_sensors,
        )[0] == 0x1A,
        spec_enc_names(0x22, st.new_actuators).len() > 0 ==> spec_enc_names(
            0x22,
            st.new_actuators,
        )[0] == 0x22,
{
    if st.actuators.len() > 0 {
        lemma_actuator_entry_roundtrip(st.actuators.first(), Seq::empty());
    }
    if st.new_sensors.len() > 0 {
        lemma_str_fld_roundtrip(0x1A, st.new_sensors.first(), Seq::empty());
    }
    if st.new_actuators.len() > 0 {
        lemma_str_fld_roundtrip(0x22, st.new_actuators.first(), Seq::empty());
    }
}

/// Snapshot round trip.
#[verifier::rlimit(100)]
#[verifier::spinoff_prover]
pub proof fn lemma_system_roundtrip(st: SystemStateV)
    requires
        wf_system(st),
    ensures
        spec_dec_system(spec_enc_system(st)) == Some(st),
{
    let e1 = spec_enc_sensors(st.sensors);
    let e2 = spec_enc_actuators(st.actuators);
    let e3 = spec_enc_names(0x1A, st.new_sensors);
    let e4 = spec_enc_names(0x22, st.new_actuators);
    let s = spec_enc_system(st);
    lemma_section_first_bytes(st);
    let r1 = e2 + (e3 + e4);
    assert(s =~= e1 + r1);
    assert(r1.len() == 0 || r1[0] != 0x0A) by {
        if r1.len() > 0 {
            if e2.len() > 0 {
                assert(r1[0] == e2[0]);
            } else if e3.len() > 0 {
                assert(r1[0] == e3[0]);
            } else {
                assert(r1[0] == e4[0]);
            }
        }
    }
    lemma_sensors_roundtrip(st.sensors, r1);
    assert(s.skip(e1.len() as int) =~= r1);
    let r2 = e3 + e4;
    assert(r1 =~= e2 + r2);
    assert(r2.len() == 0 || r2[0] != 0x12) by {
        if r2.len() > 0 {
            if e3.len() > 0 {
                assert(r2[0] == e3[0]);
            } else {
                assert(r2[0] == e4[0]);
            }
        }
    }
    lemma_actuators_roundtrip(st.actuators, r2);
    assert(r1.skip(e2.len() as int) =~= r2);
    assert(s.skip((e1.len() + e2.len()) as int) =~= r2);
    assert(e4.len() == 0 || e4[0] != 0x1A);
    lemma_names_roundtrip(0x1A, st.new_sensors, e4);
    assert(r2.skip(e3.len() as int) =~= e4);
    assert(s.skip((e1.len() + e2.len() + e3.len()) as int) =~= e4);
    assert(e4 + Seq::<u8>::empty() =~= e4);
    lemma_names_roundtrip(0x22, st.new_actuators, Seq::empty());
    assert(s.skip((e1.len() + e2.len() + e3.len() + e4.len()) as int) =~= Seq::<u8>::empty());
}

/// Appending one sensor entry appends its encoding.
proof fn lemma_enc_sensors_snoc(
    xs: Seq<(Seq<char>, SensorMeasurementV)>,
    kv: (Seq<char>, SensorMeasurementV),
)
    ensures
        spec_enc_sensors(xs.push(kv)) == spec_enc_sensors(xs) + spec_enc_sensor_entry(kv),
    decreases xs.len(),
{
    let all = xs.push(kv);
    if xs.len() == 0 {
        assert(all.drop_first() =~= Seq::<(Seq<char>, SensorMeasurementV)>::empty());
        assert(spec_enc_sensors(all.drop_first()) =~= Seq::<u8>::empty());
        assert(spec_enc_sensors(all) =~= spec_enc_sensor_entry(kv));
        assert(spec_enc_sensors(xs) + spec_enc_sensor_entry(kv) =~= spec_enc_sensor_entry(kv));
    } else {
        assert(all.first() == xs.first());
        assert(all.drop_first() =~= xs.drop_first().push(kv));
        lemma_enc_sensors_snoc(xs.drop_first(), kv);
        assert(spec_enc_sensors(all) =~= spec_enc_sensors(xs) + spec_enc_sensor_entry(kv));
    }
}

/// Appending one actuator entry appends its encoding.
proof fn lemma_enc_actuators_snoc(
    xs: Seq<(Seq<char>, ActuatorState)>,
    kv: (Seq<char>, ActuatorState),
)
    ensures
        spec_enc_actuators(xs.push(kv)) == spec_enc_actuators(xs) + spec_enc_actuator_entry(kv),
    decreases xs.len(),
{
    let all = xs.push(kv);
    if xs.len() == 0 {
        assert(all.drop_first() =~= Seq::<(Seq<char>, ActuatorState)>::empty());
        assert(spec_enc_actuators(all.drop_first()) =~= Seq::<u8>::empty());
        assert(spec_enc_actuators(all) =~= spec_enc_actuator_entry(kv));
        assert(spec_enc_actuators(xs) + spec_enc_actuator_entry(kv) =~= spec_enc_actuator_entry(
            kv,
        ));
    } else {
        assert(all.first() == xs.first());
        assert(all.drop_first() =~= xs.drop_first().push(kv));
        lemma_enc_actuators_snoc(xs.drop_first(), kv);
        assert(spec_enc_actuators(all) =~= spec_enc_actuators(xs) + spec_enc_actuator_entry(kv));
    }
}

/// Appending one name appends its encoding.
proof fn lemma_enc_names_snoc(tag: u8, xs: Seq<Seq<char>>, name: Seq<char>)
    ensures
        spec_enc_names(tag, xs.push(name)) == spec_enc_names(tag, xs) + spec_str_fld(tag, name),
    decreases xs.len(),
{
    let all = xs.push(name);
    if xs.len() == 0 {
        assert(all.drop_first() =~= Seq::<Seq<char>>::empty());
        assert(spec_enc_names(tag, all.drop_first()) =~= Seq::<u8>::empty());
        assert(spec_enc_names(tag, all) =~= spec_str_fld(tag, name));
        assert(spec_enc_names(tag, xs) + spec_str_fld(tag, name) =~= spec_str_fld(tag, name));
    } else {
        assert(all.first() == xs.first());
        assert(all.drop_first() =~= xs.drop_first().push(name));
        lemma_enc_names_snoc(tag, xs.drop_first(), name);
        assert(spec_enc_names(tag, all) =~= spec_enc_names(tag, xs) + spec_str_fld(tag, name));
    }
}

/// Encode a snapshot.
pub fn encode_system(st: &SystemState) -> (r: Vec<u8>)
    ensures
        r@ == spec_enc_system(st@),
{
    let mut out: Vec<u8> = Vec::new();
    let n1 = st.sensors.len();
    let mut i: usize = 0;
    proof {
        assert(st@.sensors.take(0) =~= Seq::<(Seq<char>, SensorMeasurementV)>::empty());
        assert(out@ =~= spec_enc_sensors(st@.sensors.take(0)));
    }
    while i < n1
        invariant
            0 <= i <= n1,
            n1 == st.sensors.len(),
            out@ == spec_enc_sensors(st@.sensors.take(i as int)),
        decreases n1 - i,
    {
        let mut body: Vec<u8> = Vec::new();
        encode_str_fld(&mut body, 0x0A, st.sensors[i].0.as_str());
        let inner = encode_measurement(&st.sensors[i].1);
        encode_msg_fld(&mut body, 0x12, &inner);
        encode_msg_fld(&mut out, 0x0A, &body);
        proof {
            lemma_enc_sensors_snoc(st@.sensors.take(i as int), st@.sensors[i as int]);
            assert(st@.sensors.take(i as int).push(st@.sensors[i as int]) =~= st@.sensors.take(
                i + 1,
            ));
            assert(body@ =~= spec_str_fld(0x0A, st@.sensors[i as int].0) + spec_msg_fld(
                0x12,
                spec_enc_measurement(st@.sensors[i as int].1),
            ));
            assert(out@ =~= spec_enc_sensors(st@.sensors.take(i + 1)));
        }
        i = i + 1;
    }
    proof {
        assert(st@.sensors.take(n1 as int) =~= st@.sensors);
    }
    let ghost base1 = out@;
    let n2 = st.actuators.len();
    let mut j: usize = 0;
    proof {
        assert(st@.actuators.take(0) =~= Seq::<(Seq<char>, ActuatorState)>::empty());
        assert(spec_enc_actuators(st@.actuators.take(0)) =~= Seq::<u8>::empty());
        assert(out@ =~= base1 + spec_enc_actuators(st@.actuators.take(0)));
    }
    while j < n2
        invariant
            0 <= j <= n2,
            n2 == st.actuators.len(),
            out@ == base1 + spec_enc_actuators(st@.actuators.take(j as int)),
        decreases n2 - j,
    {
        let mut body: Vec<u8> = Vec::new();
        encode_str_fld(&mut body, 0x0A, st.actuators[j].0.as_str());
        let inner = encode_actuator(&st.actuators[j].1);
        encode_msg_fld(&mut body, 0x12, &inner);
        encode_msg_fld(&mut out, 0x12, &body);
        proof {
            lemma_enc_actuators_snoc(st@.actuators.take(j as int), st@.actuators[j as int]);
            assert(st@.actuators.take(j as int).push(st@.actuators[j as int])
                =~= st@.actuators.take(j + 1));
            assert(body@ =~= spec_str_fld(0x0A, st@.actuators[j as int].0) + spec_msg_fld(
                0x12,
                spec_enc_actuator(st@.actuators[j as int].1),
            ));
            assert(out@ =~= base1 + spec_enc_actuators(st@.actuators.take(j + 1)));
        }
        j = j + 1;
    }
    proof {
        assert(st@.actuators.take(n2 as int) =~= st@.actuators);
    }
    let ghost base2 = out@;
    let n3 = st.new_sensors.len();
    let mut k: usize = 0;
    proof {
        assert(st@.new_sensors.take(0) =~= Seq::<Seq<char>>::empty());
        assert(spec_enc_names(0x1A, st@.new_sensors.take(0)) =~= Seq::<u8>::empty());
        assert(out@ =~= base2 + spec_enc_names(0x1A, st@.new_sensors.take(0)));
    }
    while k < n3
        invariant
            0 <= k <= n3,
            n3 == st.new_sensors.len(),
            out@ == base2 + spec_enc_names(0x1A, st@.new_sensors.take(k as int)),
        decreases n3 - k,
    {
        encode_str_fld(&mut out, 0x1A, st.new_sensors[k].as_str());
        proof {
            lemma_enc_names_snoc(0x1A, st@.new_sensors.take(k as int), st@.new_sensors[k as int]);
            assert(st@.new_sensors.take(k as int).push(st@.new_sensors[k as int])
                =~= st@.new_sensors.take(k + 1));
            assert(out@ =~= base2 + spec_enc_names(0x1A, st@.new_sensors.take(k + 1)));
        }
        k = k + 1;
    }
    proof {
        assert(st@.new_sensors.take(n3 as int) =~= st@.new_sensors);
    }
    let ghost base3 = out@;
    let n4 = st.new_actuators.len();
    let mut l: usize = 0;
    proof {
        assert(st@.new_actuators.take(0) =~= Seq::<Seq<char>>::empty());
        assert(spec_enc_names(0x22, st@.new_actuators.take(0)) =~= Seq::<u8>::empty());
        assert(out@ =~= base3 + spec_enc_names(0x22, st@.new_actuators.take(0)));
    }
    while l < n4
        invariant
            0 <= l <= n4,
            n4 == st.new_actuators.len(),
            out@ == base3 + spec_enc_names(0x22, st@.new_actuators.take(l as int)),
        decreases n4 - l,
    {
        encode_str_fld(&mut out, 0x22, st.new_actuators[l].as_str());
        proof {
            lemma_enc_names_snoc(
                0x22,
                st@.new_actuators.take(l as int),
                st@.new_actuators[l as int],
            );
            assert(st@.new_actuators.take(l as int).push(st@.new_actuators[l as int])
                =~= st@.new_actuators.take(l + 1));
            assert(out@ =~= base3 + spec_enc_names(0x22, st@.new_actuators.take(l + 1)));
        }
        l = l + 1;
    }
    proof {
        assert(st@.new_actuators.take(n4 as int) =~= st@.new_actuators);
        assert(out@ =~= spec_enc_system(st@));
    }
    out
}

/// Parse sensor-map entries at the given position.
fn read_sensors(data: &Vec<u8>, pos: usize) -> (r: Option<
    (Vec<(String, SensorMeasurement)>, usize),
>)
    requires
        pos <= data@.len(),
    ensures
        match spec_parse_sensors(data@.skip(pos as int)) {
            None => r is None,
            Some(p) => r matches Some(q) && q.0@.map_values(
                |kv: (String, SensorMeasurement)| (kv.0@, kv.1@),
            ) == p.0 && q.1 == pos + p.1,
        },
        r matches Some(q) ==> pos <= q.1 <= data@.len(),
    decreases data@.len() - pos,
{
    let ghost s = data@.skip(pos as int);
    if pos >= data.len() || data[pos] != 0x0A {
        let empty: Vec<(String, SensorMeasurement)> = Vec::new();
        proof {
            if s.len() >= 1 {
                assert(s[0] == data@[pos as int]);
            }
            assert(empty@.map_values(|kv: (String, SensorMeasurement)| (kv.0@, kv.1@)) =~= Seq::<
                (Seq<char>, SensorMeasurementV),
            >::empty());
        }
        return Some((empty, pos));
    }
    proof {
        assert(s[0] == 0x0A);
    }
    let (body, p1) = match read_msg_fld(data, pos, 0x0A) {
        Option::None => {
            return None;
        },
        Option::Some(x) => x,
    };
    proof {
        assert(body@.skip(0) =~= body@);
    }
    let (key, q1) = match read_str_fld(&body, 0, 0x0A) {
        Option::None => {
            return None;
        },
        Option::Some(x) => x,
    };
    proof {
        assert(body@.skip(0).skip(q1 as int) =~= body@.skip(q1 as int));
    }
    let (inner, q2) = match read_msg_fld(&body, q1, 0x12) {
        Option::None => {
            return None;
        },
        Option::Some(x) => x,
    };
    if q2 != body.len() {
        return None;
    }
    let m = match decode_measurement(&inner) {
        Option::None => {
            return None;
        },
        Option::Some(x) => x,
    };
    proof {
        assert(data@.skip(pos as int).skip((p1 - pos) as int) =~= data@.skip(p1 as int));
    }
    match read_sensors(data, p1) {
        Option::None => Option::None,
        Option::Some((mut rest, end)) => {
            rest.insert(0, (key, m));
            proof {
                let sp = spec_parse_sensors(s).unwrap();
                assert(rest@.map_values(|kv: (String, SensorMeasurement)| (kv.0@, kv.1@))
                    =~= sp.0);
            }
            Some((rest, end))
        },
    }
}

/// Parse actuator-map entries at the given position.
fn read_actuators(data: &Vec<u8>, pos: usize) -> (r: Option<
    (Vec<(String, ActuatorState)>, usize),
>)
    requires
        pos <= data@.len(),
    ensures
        match spec_parse_actuators(data@.skip(pos as int)) {
            None => r is None,
            Some(p) => r matches Some(q) && q.0@.map_values(
                |kv: (String, ActuatorState)| (kv.0@, kv.1),
            ) == p.0 && q.1 == pos + p.1,
        },
        r matches Some(q) ==> pos <= q.1 <= data@.len(),
    decreases data@.len() - pos,
{
    let ghost s = data@.skip(pos as int);
    if pos >= data.len() || data[pos] != 0x12 {
        let empty: Vec<(String, ActuatorState)> = Vec::new();
        proof {
            if s.len() >= 1 {
                assert(s[0] == data@[pos as int]);
            }
            assert(empty@.map_values(|kv: (String, ActuatorState)| (kv.0@, kv.1)) =~= Seq::<
                (Seq<char>, ActuatorState),
            >::empty());
        }
        return Some((empty, pos));
    }
    proof {
        assert(s[0] == 0x12);
    }
    let (body, p1) = match read_msg_fld(data, pos, 0x12) {
        Option::None => {
            return None;
        },
        Option::Some(x) => x,
    };
    proof {
        assert(body@.skip(0) =~= body@);
    }
    let (key, q1) = match read_str_fld(&body, 0, 0x0A) {
        Option::None => {
            return None;
        },
        Option::Some(x) => x,
    };
    proof {
        assert(body@.skip(0).skip(q1 as int) =~= body@.skip(q1 as int));
    }
    let (inner, q2) = match read_msg_fld(&body, q1, 0x12) {
        Option::None => {
            return None;
        },
        Option::Some(x) => x,
    };
    if q2 != body.len() {
        return None;
    }
    let a = match decode_actuator(&inner) {
        Option::None => {
            return None;
        },
        Option::Some(x) => x,
    };
    proof {
        assert(data@.skip(pos as int).skip((p1 - pos) as int) =~= data@.skip(p1 as int));
    }
    match read_actuators(data, p1) {
        Option::None => Option::None,
        Option::Some((mut rest, end)) => {
            rest.insert(0, (key, a));
            proof {
                let sp = spec_parse_actuators(s).unwrap();
                assert(rest@.map_values(|kv: (String, ActuatorState)| (kv.0@, kv.1)) =~= sp.0);
            }
            Some((rest, end))
        },
    }
}

/// Parse a repeated string field at the given position.
fn read_names(data: &Vec<u8>, pos: usize, tag: u8) -> (r: Option<(Vec<String>, usize)>)
    requires
        pos <= data@.len(),
    ensures
        match spec_parse_names(data@.skip(pos as int), tag) {
            None => r is None,
            Some(p) => r matches Some(q) && q.0@.map_values(|n: String| n@) == p.0 && q.1 == pos
                + p.1,
        },
        r matches Some(q) ==> pos <= q.1 <= data@.len(),
    decreases data@.len() - pos,
{
    let ghost s = data@.skip(pos as int);
    if pos >= data.len() || data[pos] != tag {
        let empty: Vec<String> = Vec::new();
        proof {
            if s.len() >= 1 {
                assert(s[0] == data@[pos as int]);
            }
            assert(empty@.map_values(|n: String| n@) =~= Seq::<Seq<char>>::empty());
        }
        return Some((empty, pos));
    }
    proof {
        assert(s[0] == tag);
    }
    let (name, p1) = match read_str_fld(data, pos, tag) {
        Option::None => {
            return None;
        },
        Option::Some(x) => x,
    };
    proof {
        assert(data@.skip(pos as int).skip((p1 - pos) as int) =~= data@.skip(p1 as int));
    }
    match read_names(data, p1, tag) {
        Option::None => Option::None,
        Option::Some((mut rest, end)) => {
            rest.insert(0, name);
            proof {
                let sp = spec_parse_names(s, tag).unwrap();
                assert(rest@.map_values(|n: String| n@) =~= sp.0);
            }
            Some((rest, end))
        },
    }
}

/// Decode a snapshot from a whole buffer.
pub fn decode_system(data: &Vec<u8>) -> (r: Option<SystemState>)
    ensures
        match spec_dec_system(data@) {
            None => r is None,
            Some(v) => r matches Some(st) && st@ == v,
        },
{
    proof {
        assert(data@.skip(0) =~= data@);
    }
    let (sensors, p1) = match read_sensors(data, 0) {
        Option::None => {
            return None;
        },
        Option::Some(x) => x,
    };
    proof {
        assert(data@.skip(0).skip(p1 as int) =~= data@.skip(p1 as int));
    }
    let (actuators, p2) = match read_actuators(data, p1) {
        Option::None => {
            return None;
        },
        Option::Some(x) => x,
    };
    proof {
        assert(data@.skip(p1 as int).skip((p2 - p1) as int) =~= data@.skip(p2 as int));
    }
    let (new_sensors, p3) = match read_names(data, p2, 0x1A) {
        Option::None => {
            return None;
        },
        Option::Some(x) => x,
    };
    proof {
        assert(data@.skip(p2 as int).skip((p3 - p2) as int) =~= data@.skip(p3 as int));
    }
    let (new_actuators, p4) = match read_names(data, p3, 0x22) {
        Option::None => {
            return None;
        },
        Option::Some(x) => x,
    };
    if p4 != data.len() {
        return None;
    }
    Some(SystemState { sensors, actuators, new_sensors, new_actuators })
}

} // verus!
