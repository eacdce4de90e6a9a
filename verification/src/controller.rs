//! Per-task decision logic of the controller.
//!
//! Each of the controller's tasks runs a socket loop at the unverified edge;
//! what it decides between receiving a request and sending the reply is
//! here, as functions from registry state and decoded message to new state,
//! reply, and subscription commands.

use vstd::prelude::*;

use crate::messages::{
    ClientApiCommand, DiscoveryCommand, EntityDiscoveryCommand, EntityState, EntityType,
    PublishData, PublishDataV, ResponseCode, SystemState,
};
use crate::registry::{
    contains_name, idx_of, spec_keep, spec_snapshot, Registry, RowV,
};
use crate::topics::{
    entity_topic, spec_actuator_name, spec_entity_topic, spec_sensor_name,
};

verus! {

/// An order to the subscriber task: start or stop listening on a topic.
#[derive(Debug, Clone, PartialEq)]
pub enum SubscriptionCommand {
    Subscribe(String),
    Unsubscribe(String),
}

/// Ghost model of a subscription command.
pub ghost enum SubscriptionCommandV {
    Subscribe(Seq<char>),
    Unsubscribe(Seq<char>),
}

impl View for SubscriptionCommand {
    type V = SubscriptionCommandV;

    open spec fn view(&self) -> SubscriptionCommandV {
        match self {
            SubscriptionCommand::Subscribe(t) => SubscriptionCommandV::Subscribe(t@),
            SubscriptionCommand::Unsubscribe(t) => SubscriptionCommandV::Unsubscribe(t@),
        }
    }
}

/// The endpoint of an entity's replier, from the peer address of its
/// register request and the port it announced.
pub fn register_endpoint(ip: &str, port: &str) -> (r: String)
    ensures
        r@ == "tcp://"@ + ip@ + ":"@ + port@,
{
    let mut endpoint = String::from_str("tcp://");
    endpoint.append(ip);
    endpoint.append(":");
    endpoint.append(port);
    endpoint
}

/// Handle one decoded discovery request against the registry.
///
/// For a register request the caller has already opened the back channel to
/// the announced endpoint and passes it in; it is stored only if the name is
/// free. The reply code and the subscription command to emit are returned.
pub fn handle_discovery<C>(
    reg: &mut Registry<C>,
    cmd: EntityDiscoveryCommand,
    back_channel: Option<C>,
    now: u64,
) -> (r: (ResponseCode, Option<SubscriptionCommand>))
    requires
        old(reg).wf(),
        cmd.command matches DiscoveryCommand::Register { .. } ==> back_channel is Some,
    ensures
        final(reg).wf(),
        match cmd@.command {
            DiscoveryCommand::Register { port: _ } => {
                if contains_name(old(reg)@, cmd@.entity_name) {
                    r.0 == ResponseCode::Error && r.1 is None && final(reg)@ == old(reg)@
                } else {
                    &&& r.0 == ResponseCode::Okay
                    &&& final(reg)@ == old(reg)@.push(
                        RowV {
                            name: cmd@.entity_name,
                            kind: cmd@.entity_type,
                            state: crate::messages::EntityStateV::New(cmd@.entity_type),
                            last_heartbeat: now,
                            back_channel: back_channel->0,
                        },
                    )
                    &&& r.1 matches Some(c) && c@ == SubscriptionCommandV::Subscribe(
                        spec_entity_topic(cmd@.entity_name, cmd@.entity_type),
                    )
                }
            },
            DiscoveryCommand::Heartbeat => {
                &&& r.1 is None
                &&& if contains_name(old(reg)@, cmd@.entity_name) {
                    let i = idx_of(old(reg)@, cmd@.entity_name);
                    let row = old(reg)@[i];
                    r.0 == ResponseCode::Okay && final(reg)@ == old(reg)@.update(
                        i,
                        RowV {
                            name: row.name,
                            kind: row.kind,
                            state: row.state,
                            last_heartbeat: if now >= row.last_heartbeat {
                                now
                            } else {
                                row.last_heartbeat
                            },
                            back_channel: row.back_channel,
                        },
                    )
                } else {
                    r.0 == ResponseCode::Error && final(reg)@ == old(reg)@
                }
            },
            DiscoveryCommand::Unregister => {
                if contains_name(old(reg)@, cmd@.entity_name) {
                    let i = idx_of(old(reg)@, cmd@.entity_name);
                    &&& r.0 == ResponseCode::Okay
                    &&& final(reg)@ == old(reg)@.remove(i)
                    &&& r.1 matches Some(c) && c@ == SubscriptionCommandV::Unsubscribe(
                        spec_entity_topic(cmd@.entity_name, old(reg)@[i].kind),
                    )
                } else {
                    r.0 == ResponseCode::Error && r.1 is None && final(reg)@ == old(reg)@
                }
            },
        },
{
    match cmd.command {
        DiscoveryCommand::Register { port: _ } => {
            let topic = entity_topic(cmd.entity_name.as_str(), cmd.entity_type);
            let channel = match back_channel {
                Option::Some(c) => c,
                Option::None => {
                    return (ResponseCode::Error, Option::None);
                },
            };
            match reg.register(cmd.entity_name, cmd.entity_type, channel, now) {
                Result::Ok(()) => (
                    ResponseCode::Okay,
                    Option::Some(SubscriptionCommand::Subscribe(topic)),
                ),
                Result::Err(_) => (ResponseCode::Error, Option::None),
            }
        },
        DiscoveryCommand::Heartbeat => {
            match reg.heartbeat(&cmd.entity_name, now) {
                Result::Ok(()) => (ResponseCode::Okay, Option::None),
                Result::Err(_) => (ResponseCode::Error, Option::None),
            }
        },
        DiscoveryCommand::Unregister => {
            match reg.kind_of(&cmd.entity_name) {
                Option::None => (ResponseCode::Error, Option::None),
                Option::Some(kind) => {
                    let topic = entity_topic(cmd.entity_name.as_str(), kind);
                    match reg.unregister(&cmd.entity_name) {
                        Result::Ok(()) => (
                            ResponseCode::Okay,
                            Option::Some(SubscriptionCommand::Unsubscribe(topic)),
                        ),
                        Result::Err(_) => (ResponseCode::Error, Option::None),
                    }
                },
            }
        },
    }
}

/// Why a published sample was dropped.
#[derive(Debug, Clone, Copy, PartialEq, Eq, Structural)]
pub enum PublicationError {
    /// The topic does not parse as a topic of the payload's kind.
    MalformedTopic,
    /// The topic names an entity that is not registered; the registry is
    /// authoritative, so the sample is dropped.
    UnknownEntity,
}

/// Ingest one published sample: parse the entity name out of the topic and
/// overwrite the named row's state with it.
pub fn handle_publication<C>(reg: &mut Registry<C>, topic: &str, data: PublishData) -> (r: Result<
    (),
    PublicationError,
>)
    requires
        old(reg).wf(),
    ensures
        final(reg).wf(),
        match data@ {
            PublishDataV::Measurement(m) => {
                match spec_sensor_name(topic@) {
                    Option::None => r == Result::<(), PublicationError>::Err(
                        PublicationError::MalformedTopic,
                    ) && final(reg)@ == old(reg)@,
                    Option::Some(name) => {
                        if contains_name(old(reg)@, name) {
                            let i = idx_of(old(reg)@, name);
                            let row = old(reg)@[i];
                            r is Ok && final(reg)@ == old(reg)@.update(
                                i,
                                RowV {
                                    name: row.name,
                                    kind: row.kind,
                                    state: crate::messages::EntityStateV::Sensor(m),
                                    last_heartbeat: row.last_heartbeat,
                                    back_channel: row.back_channel,
                                },
                            )
                        } else {
                            r == Result::<(), PublicationError>::Err(
                                PublicationError::UnknownEntity,
                            ) && final(reg)@ == old(reg)@
                        }
                    },
                }
            },
            PublishDataV::ActuatorState(s) => {
                match spec_actuator_name(topic@) {
                    Option::None => r == Result::<(), PublicationError>::Err(
                        PublicationError::MalformedTopic,
                    ) && final(reg)@ == old(reg)@,
                    Option::Some(name) => {
                        if contains_name(old(reg)@, name) {
                            let i = idx_of(old(reg)@, name);
                            let row = old(reg)@[i];
                            r is Ok && final(reg)@ == old(reg)@.update(
                                i,
                                RowV {
                                    name: row.name,
                                    kind: row.kind,
                                    state: crate::messages::EntityStateV::Actuator(s),
                                    last_heartbeat: row.last_heartbeat,
                                    back_channel: row.back_channel,
                                },
                            )
                        } else {
                            r == Result::<(), PublicationError>::Err(
                                PublicationError::UnknownEntity,
                            ) && final(reg)@ == old(reg)@
                        }
                    },
                }
            },
        },
{
    match data {
        PublishData::Measurement(m) => {
            match crate::topics::sensor_name(topic) {
                Option::None => Result::Err(PublicationError::MalformedTopic),
                Option::Some(name) => {
                    match reg.update_state(&name, EntityState::Sensor(m)) {
                        Result::Ok(()) => Result::Ok(()),
                        Result::Err(_) => Result::Err(PublicationError::UnknownEntity),
                    }
                },
            }
        },
        PublishData::ActuatorState(s) => {
            match crate::topics::actuator_name(topic) {
                Option::None => Result::Err(PublicationError::MalformedTopic),
                Option::Some(name) => {
                    match reg.update_state(&name, EntityState::Actuator(s)) {
                        Result::Ok(()) => Result::Ok(()),
                        Result::Err(_) => Result::Err(PublicationError::UnknownEntity),
                    }
                },
            }
        },
    }
}

/// What the client-API task must do next for one decoded client request.
#[derive(Debug, PartialEq)]
pub enum ClientStep {
    /// Reply with this snapshot of the whole system.
    ReplyState(SystemState),
    /// Forward the action to the named entity over its back channel, then
    /// relay the entity's reply.
    Forward { name: String },
    /// Reply with an error: the action addressed an unknown entity.
    ReplyError,
}

/// Decide how to serve one client request.
///
/// A query is answered from the registry alone. An action is forwarded only
/// if its target is registered; the caller performs the exchange on the
/// row's back channel and relays the outcome, leaving the row in place
/// whatever happens.
pub fn handle_client_command<C>(reg: &Registry<C>, cmd: &ClientApiCommand) -> (r: ClientStep)
    requires
        reg.wf(),
    ensures
        match cmd@ {
            crate::messages::ClientApiCommandV::Query => r matches ClientStep::ReplyState(st)
                && st@ == spec_snapshot(reg@),
            crate::messages::ClientApiCommandV::Action(a) => {
                if contains_name(reg@, a.entity_name) {
                    r matches ClientStep::Forward { name } && name@ == a.entity_name
                } else {
                    r == ClientStep::ReplyError
                }
            },
        },
{
    match cmd {
        ClientApiCommand::Query => ClientStep::ReplyState(reg.snapshot()),
        ClientApiCommand::Action(action) => {
            if reg.contains(&action.entity_name) {
                ClientStep::Forward { name: action.entity_name.clone() }
            } else {
                ClientStep::ReplyError
            }
        },
    }
}

/// The code relayed to the client after an action was forwarded: success
/// exactly when the exchange succeeded and the entity itself replied
/// success. A back-channel failure surfaces as `None` and is reported as an
/// error without touching the row; liveness is the sweeper's job alone.
pub fn relay_action_outcome(outcome: Option<ResponseCode>) -> (r: ResponseCode)
    ensures
        r == ResponseCode::Okay <==> outcome == Some(ResponseCode::Okay),
{
    match outcome {
        Option::Some(ResponseCode::Okay) => ResponseCode::Okay,
        Option::Some(ResponseCode::Error) => ResponseCode::Error,
        Option::None => ResponseCode::Error,
    }
}

/// One pass of the timeout task: evict every entity whose heartbeat has
/// lapsed and order the matching unsubscriptions.
pub fn handle_sweep<C>(reg: &mut Registry<C>, now: u64) -> (cmds: Vec<SubscriptionCommand>)
    requires
        old(reg).wf(),
    ensures
        final(reg).wf(),
        final(reg)@ == old(reg)@.filter(|r: RowV<C>| spec_keep(r, now)),
        cmds@.map_values(|c: SubscriptionCommand| c@) == old(reg)@.filter(
            |r: RowV<C>| !spec_keep(r, now),
        ).map_values(
            |r: RowV<C>| SubscriptionCommandV::Unsubscribe(spec_entity_topic(r.name, r.kind)),
        ),
{
    let evicted = reg.evict_expired(now);
    let mut cmds: Vec<SubscriptionCommand> = Vec::new();
    let n = evicted.len();
    let ghost dropped_rows = old(reg)@.filter(|r: RowV<C>| !spec_keep(r, now));
    let ghost target = dropped_rows.map_values(
        |r: RowV<C>| SubscriptionCommandV::Unsubscribe(spec_entity_topic(r.name, r.kind)),
    );
    let mut idx: usize = 0;
    proof {
        assert(cmds@.map_values(|c: SubscriptionCommand| c@) =~= target.take(0));
        assert(evicted@.map_values(|s: String| s@).len() == evicted@.len());
    }
    while idx < n
        invariant
            0 <= idx <= n,
            n == evicted.len(),
            n == dropped_rows.len(),
            n == target.len(),
            evicted@.map_values(|s: String| s@) == dropped_rows.map_values(
                |r: RowV<C>| spec_entity_topic(r.name, r.kind),
            ),
            target == dropped_rows.map_values(
                |r: RowV<C>| SubscriptionCommandV::Unsubscribe(spec_entity_topic(r.name, r.kind)),
            ),
            cmds@.map_values(|c: SubscriptionCommand| c@) =~= target.take(idx as int),
        decreases n - idx,
    {
        let ghost prev_cmds = cmds@;
        let topic = evicted[idx].clone();
        cmds.push(SubscriptionCommand::Unsubscribe(topic));
        proof {
            assert(evicted@.map_values(|s: String| s@)[idx as int] == dropped_rows.map_values(
                |r: RowV<C>| spec_entity_topic(r.name, r.kind),
            )[idx as int]);
            assert(topic@ == spec_entity_topic(
                dropped_rows[idx as int].name,
                dropped_rows[idx as int].kind,
            ));
            assert(target[idx as int] == SubscriptionCommandV::Unsubscribe(topic@));
            assert(cmds@ == prev_cmds.push(SubscriptionCommand::Unsubscribe(topic)));
            assert(cmds@.map_values(|c: SubscriptionCommand| c@) =~= prev_cmds.map_values(
                |c: SubscriptionCommand| c@,
            ).push(SubscriptionCommandV::Unsubscribe(topic@)));
            assert(target.take(idx + 1) =~= target.take(idx as int).push(target[idx as int]));
            assert(cmds@.map_values(|c: SubscriptionCommand| c@) =~= target.take(idx + 1));
        }
        idx = idx + 1;
    }
    proof {
        assert(target.take(n as int) =~= target);
        assert(cmds@.map_values(|c: SubscriptionCommand| c@) =~= target);
    }
    cmds
}

} // verus!
