//! Topic names: every entity publishes on exactly one topic derived from its
//! name and type, and the controller parses the name back out of the topic.

use vstd::prelude::*;

use crate::messages::EntityType;

verus! {

/// The topic a sensor publishes its measurements on.
pub open spec fn spec_sensor_topic(name: Seq<char>) -> Seq<char> {
    "/measurement/"@ + name
}

/// The topic an actuator publishes its state on.
pub open spec fn spec_actuator_topic(name: Seq<char>) -> Seq<char> {
    "/actuator_state/"@ + name
}

/// The topic of an entity of the given type.
pub open spec fn spec_entity_topic(name: Seq<char>, entity_type: EntityType) -> Seq<char> {
    match entity_type {
        EntityType::Sensor => spec_sensor_topic(name),
        EntityType::Actuator => spec_actuator_topic(name),
    }
}

/// The entity name a sensor topic addresses, if it is one.
pub open spec fn spec_sensor_name(topic: Seq<char>) -> Option<Seq<char>> {
    if topic.len() >= 13 && topic.subrange(0, 13) == "/measurement/"@ {
        Some(topic.skip(13))
    } else {
        None
    }
}

/// The entity name an actuator topic addresses, if it is one.
pub open spec fn spec_actuator_name(topic: Seq<char>) -> Option<Seq<char>> {
    if topic.len() >= 16 && topic.subrange(0, 16) == "/actuator_state/"@ {
        Some(topic.skip(16))
    } else {
        None
    }
}

/// Build the measurement topic of the named sensor.
pub fn sensor_measurement_topic(name: &str) -> (r: String)
    ensures
        r@ == spec_sensor_topic(name@),
{
    let mut topic = String::from_str("/measurement/");
    topic.append(name);
    topic
}

/// Build the state topic of the named actuator.
pub fn actuator_state_topic(name: &str) -> (r: String)
    ensures
        r@ == spec_actuator_topic(name@),
{
    let mut topic = String::from_str("/actuator_state/");
    topic.append(name);
    topic
}

/// Build the topic of the named entity of the given type.
pub fn entity_topic(name: &str, entity_type: EntityType) -> (r: String)
    ensures
        r@ == spec_entity_topic(name@, entity_type),
{
    match entity_type {
        EntityType::Sensor => sensor_measurement_topic(name),
        EntityType::Actuator => actuator_state_topic(name),
    }
}

/// Parse the sensor name out of a measurement topic; `None` if the topic is
/// not a measurement topic.
pub fn sensor_name(topic: &str) -> (r: Option<String>)
    ensures
        r is Some <==> spec_sensor_name(topic@) is Some,
        r matches Some(n) ==> Some(n@) == spec_sensor_name(topic@),
{
    proof {
        reveal_strlit("/measurement/");
    }
    let prefix = "/measurement/";
    strip_prefix(topic, prefix, 13)
}

/// Parse the actuator name out of a state topic; `None` if the topic is not
/// an actuator-state topic.
pub fn actuator_name(topic: &str) -> (r: Option<String>)
    ensures
        r is Some <==> spec_actuator_name(topic@) is Some,
        r matches Some(n) ==> Some(n@) == spec_actuator_name(topic@),
{
    proof {
        reveal_strlit("/actuator_state/");
    }
    let prefix = "/actuator_state/";
    strip_prefix(topic, prefix, 16)
}

/// What is left of `topic` after a prefix of the given character length, if
/// the prefix is there.
fn strip_prefix(topic: &str, prefix: &str, prefix_len: usize) -> (r: Option<String>)
    requires
        prefix@.len() == prefix_len,
    ensures
        r is Some <==> (topic@.len() >= prefix_len && topic@.subrange(0, prefix_len as int)
            == prefix@),
        r matches Some(n) ==> n@ == topic@.skip(prefix_len as int),
{
    let len = topic.unicode_len();
    if len < prefix_len {
        return None;
    }
    let mut i: usize = 0;
    while i < prefix_len
        invariant
            0 <= i <= prefix_len,
            prefix@.len() == prefix_len,
            len == topic@.len(),
            len >= prefix_len,
            forall|j: int| 0 <= j < i ==> topic@[j] == prefix@[j],
        decreases prefix_len - i,
    {
        if topic.get_char(i) != prefix.get_char(i) {
            proof {
                assert(topic@.subrange(0, prefix_len as int)[i as int] != prefix@[i as int]);
            }
            return None;
        }
        i = i + 1;
    }
    proof {
        assert(topic@.subrange(0, prefix_len as int) =~= prefix@);
    }
    let rest = topic.substring_char(prefix_len, len);
    Some(rest.to_owned())
}

/// Topic round trip: the topic built for a sensor parses back to the
/// sensor's name, and is never mistaken for an actuator topic.
pub proof fn lemma_sensor_topic_roundtrip(name: Seq<char>)
    ensures
        spec_sensor_name(spec_sensor_topic(name)) == Some(name),
        spec_actuator_name(spec_sensor_topic(name)) is None,
{
    reveal_strlit("/measurement/");
    reveal_strlit("/actuator_state/");
    let topic = spec_sensor_topic(name);
    assert(topic.subrange(0, 13) =~= "/measurement/"@);
    assert(topic.skip(13) =~= name);
    if topic.len() >= 16 && topic.subrange(0, 16) == "/actuator_state/"@ {
        assert(topic.subrange(0, 16)[0] == '/');
        assert(topic.subrange(0, 16)[1] == 'a');
        assert(topic[1] == 'm');
    }
}

/// Topic round trip: the topic built for an actuator parses back to the
/// actuator's name, and is never mistaken for a sensor topic.
pub proof fn lemma_actuator_topic_roundtrip(name: Seq<char>)
    ensures
        spec_actuator_name(spec_actuator_topic(name)) == Some(name),
        spec_sensor_name(spec_actuator_topic(name)) is None,
{
    reveal_strlit("/measurement/");
    reveal_strlit("/actuator_state/");
    let topic = spec_actuator_topic(name);
    assert(topic.subrange(0, 16) =~= "/actuator_state/"@);
    assert(topic.skip(16) =~= name);
    if topic.len() >= 13 && topic.subrange(0, 13) == "/measurement/"@ {
        assert(topic.subrange(0, 13)[1] == 'm');
        assert(topic[1] == 'a');
    }
}

/// A topic determines the entity name and type it was built from.
pub proof fn lemma_entity_topic_injective(
    n1: Seq<char>,
    t1: EntityType,
    n2: Seq<char>,
    t2: EntityType,
)
    requires
        spec_entity_topic(n1, t1) == spec_entity_topic(n2, t2),
    ensures
        n1 == n2,
        t1 == t2,
{
    lemma_sensor_topic_roundtrip(n1);
    lemma_sensor_topic_roundtrip(n2);
    lemma_actuator_topic_roundtrip(n1);
    lemma_actuator_topic_roundtrip(n2);
}

} // verus!
