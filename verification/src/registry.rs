//! The controller's registry of live entities.
//!
//! A row is created when an entity registers, refreshed by heartbeats,
//! overwritten by published samples, and destroyed by an unregister request
//! or by the timeout sweeper. Entity names are unique across the registry,
//! and every row owns the back channel to its entity for its whole lifetime.
//!
//! The registry is generic over the back-channel handle `C`, so that the
//! unverified edge can store a real request socket while the logic and the
//! tests work with any placeholder.

use vstd::prelude::*;

use crate::messages::{
    ActuatorState, EntityState, EntityStateV, EntityType, SensorMeasurement, SystemState,
    SystemStateV,
};
use crate::topics::spec_entity_topic;
use crate::HEARTBEAT_FREQUENCY_MS;

verus! {

/// An entity is evicted once its last heartbeat is more than this many
/// milliseconds in the past: twice the heartbeat interval.
pub const EVICTION_THRESHOLD_MS: u64 = 2 * HEARTBEAT_FREQUENCY_MS;

/// Why a registry operation was refused.
#[derive(Debug, Clone, Copy, PartialEq, Eq, Structural)]
pub enum RegistryError {
    /// A register request used a name that is already taken.
    DuplicateEntity,
    /// The named entity is not in the registry.
    UnknownEntity,
}

/// One registry row.
#[derive(Debug)]
pub struct Row<C> {
    pub name: String,
    /// The type the entity registered with; immutable afterwards.
    pub kind: EntityType,
    pub state: EntityState,
    /// Monotonic timestamp (milliseconds) of the last heartbeat.
    pub last_heartbeat: u64,
    /// Request endpoint connected to the entity's replier.
    pub back_channel: C,
}

/// Ghost model of a registry row.
pub ghost struct RowV<C> {
    pub name: Seq<char>,
    pub kind: EntityType,
    pub state: EntityStateV,
    pub last_heartbeat: u64,
    pub back_channel: C,
}

impl<C> View for Row<C> {
    type V = RowV<C>;

    open spec fn view(&self) -> RowV<C> {
        RowV {
            name: self.name@,
            kind: self.kind,
            state: self.state@,
            last_heartbeat: self.last_heartbeat,
            back_channel: self.back_channel,
        }
    }
}

/// Whether a row's name appears in the given row sequence.
pub open spec fn contains_name<C>(rows: Seq<RowV<C>>, name: Seq<char>) -> bool {
    exists|i: int| 0 <= i < rows.len() && rows[i].name == name
}

/// The index of the row with the given name.
pub open spec fn idx_of<C>(rows: Seq<RowV<C>>, name: Seq<char>) -> int {
    choose|i: int| 0 <= i < rows.len() && rows[i].name == name
}

/// Row names are pairwise distinct.
pub open spec fn unique_names<C>(rows: Seq<RowV<C>>) -> bool {
    forall|i: int, j: int|
        0 <= i < rows.len() && 0 <= j < rows.len() && i != j ==> rows[i].name != rows[j].name
}

/// The registry: the set of live entities, keyed by their unique names.
#[derive(Debug)]
pub struct Registry<C> {
    rows: Vec<Row<C>>,
}

impl<C> View for Registry<C> {
    type V = Seq<RowV<C>>;

    closed spec fn view(&self) -> Seq<RowV<C>> {
        self.rows@.map_values(|r: Row<C>| r@)
    }
}

/// A row is kept by a sweep at `now` exactly when its last heartbeat is at
/// most the eviction threshold in the past.
pub open spec fn spec_keep<C>(row: RowV<C>, now: u64) -> bool {
    now <= row.last_heartbeat + EVICTION_THRESHOLD_MS
}

impl<C> Registry<C> {
    /// Invariant: names are unique.
    pub open spec fn wf(&self) -> bool {
        unique_names(self@)
    }

    /// An empty registry.
    pub fn new() -> (r: Self)
        ensures
            r@ == Seq::<RowV<C>>::empty(),
            r.wf(),
    {
        let r = Registry { rows: Vec::new() };
        proof {
            assert(r@ =~= Seq::<RowV<C>>::empty());
        }
        r
    }

    /// How many entities are registered.
    pub fn len(&self) -> (r: usize)
        ensures
            r == self@.len(),
    {
        self.rows.len()
    }

    /// The index of the named row, if any.
    fn find(&self, name: &String) -> (r: Option<usize>)
        requires
            self.wf(),
        ensures
            r is Some <==> contains_name(self@, name@),
            r matches Some(i) ==> 0 <= i < self@.len() && self@[i as int].name == name@ && i
                == idx_of(self@, name@),
    {
        let n = self.rows.len();
        let mut i: usize = 0;
        while i < n
            invariant
                0 <= i <= n,
                n == self@.len(),
                self.wf(),
                forall|j: int| 0 <= j < i ==> self@[j].name != name@,
            decreases n - i,
        {
            if self.rows[i].name == *name {
                proof {
                    assert(self@[i as int].name == name@);
                    let w = idx_of(self@, name@);
                    assert(0 <= w < self@.len() && self@[w].name == name@);
                    assert(w == i as int);
                }
                return Some(i);
            }
            i = i + 1;
        }
        None
    }

    /// Whether the named entity is registered.
    pub fn contains(&self, name: &String) -> (r: bool)
        requires
            self.wf(),
        ensures
            r == contains_name(self@, name@),
    {
        self.find(name).is_some()
    }

    /// Insert a fresh row for a newly registered entity. Refused, with the
    /// registry unchanged, exactly when the name is already taken.
    pub fn register(
        &mut self,
        name: String,
        kind: EntityType,
        back_channel: C,
        now: u64,
    ) -> (r: Result<(), RegistryError>)
        requires
            old(self).wf(),
        ensures
            final(self).wf(),
            r is Err <==> contains_name(old(self)@, name@),
            r matches Err(e) ==> e == RegistryError::DuplicateEntity && final(self)@ == old(
                self,
            )@,
            r is Ok ==> final(self)@ == old(self)@.push(
                RowV {
                    name: name@,
                    kind,
                    state: EntityStateV::New(kind),
                    last_heartbeat: now,
                    back_channel,
                },
            ),
    {
        if self.find(&name).is_some() {
            return Err(RegistryError::DuplicateEntity);
        }
        let row = Row {
            name,
            kind,
            state: EntityState::New(kind),
            last_heartbeat: now,
            back_channel,
        };
        self.rows.push(row);
        proof {
            assert(final(self)@ =~= old(self)@.push(
                RowV {
                    name: name@,
                    kind,
                    state: EntityStateV::New(kind),
                    last_heartbeat: now,
                    back_channel,
                },
            ));
        }
        Ok(())
    }

    /// Record a heartbeat: refresh the row's timestamp, never moving it
    /// backwards. Refused exactly when the name is unknown.
    pub fn heartbeat(&mut self, name: &String, now: u64) -> (r: Result<(), RegistryError>)
        requires
            old(self).wf(),
        ensures
            final(self).wf(),
            r is Err <==> !contains_name(old(self)@, name@),
            r matches Err(e) ==> e == RegistryError::UnknownEntity && final(self)@ == old(self)@,
            r is Ok ==> {
                let i = idx_of(old(self)@, name@);
                let row = old(self)@[i];
                final(self)@ == old(self)@.update(
                    i,
                    RowV {
                        name: row.name,
                        kind: row.kind,
                        state: row.state,
                        last_heartbeat: if now >= row.last_heartbeat {
                            now
                        } else {
                            row.last_heartbeat
                        },
                        back_channel: row.back_channel,
                    },
                )
            },
    {
        match self.find(name) {
            Option::None => Err(RegistryError::UnknownEntity),
            Option::Some(i) => {
                let row = &mut self.rows[i];
                if now >= row.last_heartbeat {
                    row.last_heartbeat = now;
                }
                proof {
                    let iv = idx_of(old(self)@, name@);
                    let rv = old(self)@[iv];
                    assert(final(self)@ =~= old(self)@.update(
                        iv,
                        RowV {
                            name: rv.name,
                            kind: rv.kind,
                            state: rv.state,
                            last_heartbeat: if now >= rv.last_heartbeat {
                                now
                            } else {
                                rv.last_heartbeat
                            },
                            back_channel: rv.back_channel,
                        },
                    ));
                }
                Ok(())
            },
        }
    }

    /// Overwrite the named row's state with a newly published sample.
    /// Refused exactly when the name is unknown; the sample is then dropped.
    pub fn update_state(&mut self, name: &String, state: EntityState) -> (r: Result<
        (),
        RegistryError,
    >)
        requires
            old(self).wf(),
        ensures
            final(self).wf(),
            r is Err <==> !contains_name(old(self)@, name@),
            r matches Err(e) ==> e == RegistryError::UnknownEntity && final(self)@ == old(self)@,
            r is Ok ==> {
                let i = idx_of(old(self)@, name@);
                let row = old(self)@[i];
                final(self)@ == old(self)@.update(
                    i,
                    RowV {
                        name: row.name,
                        kind: row.kind,
                        state: state@,
                        last_heartbeat: row.last_heartbeat,
                        back_channel: row.back_channel,
                    },
                )
            },
    {
        match self.find(name) {
            Option::None => Err(RegistryError::UnknownEntity),
            Option::Some(i) => {
                let row = &mut self.rows[i];
                row.state = state;
                proof {
                    let iv = idx_of(old(self)@, name@);
                    let rv = old(self)@[iv];
                    assert(final(self)@ =~= old(self)@.update(
                        iv,
                        RowV {
                            name: rv.name,
                            kind: rv.kind,
                            state: final(self)@[iv].state,
                            last_heartbeat: rv.last_heartbeat,
                            back_channel: rv.back_channel,
                        },
                    ));
                }
                Ok(())
            },
        }
    }

    /// Remove the named row. Refused exactly when the name is unknown.
    pub fn unregister(&mut self, name: &String) -> (r: Result<(), RegistryError>)
        requires
            old(self).wf(),
        ensures
            final(self).wf(),
            r is Err <==> !contains_name(old(self)@, name@),
            r matches Err(e) ==> e == RegistryError::UnknownEntity && final(self)@ == old(self)@,
            r is Ok ==> final(self)@ == old(self)@.remove(idx_of(old(self)@, name@)),
    {
        match self.find(name) {
            Option::None => Err(RegistryError::UnknownEntity),
            Option::Some(i) => {
                self.rows.remove(i);
                proof {
                    assert(final(self)@ =~= old(self)@.remove(i as int));
                }
                Ok(())
            },
        }
    }

    /// The state of the named entity, if it is registered.
    pub fn entity_state(&self, name: &String) -> (r: Option<&EntityState>)
        requires
            self.wf(),
        ensures
            r is Some <==> contains_name(self@, name@),
            r matches Some(s) ==> s@ == self@[idx_of(self@, name@)].state,
    {
        match self.find(name) {
            Option::None => Option::None,
            Option::Some(i) => Option::Some(&self.rows[i].state),
        }
    }

    /// The type the named entity registered with, if it is registered.
    pub fn kind_of(&self, name: &String) -> (r: Option<EntityType>)
        requires
            self.wf(),
        ensures
            r is Some <==> contains_name(self@, name@),
            r matches Some(k) ==> k == self@[idx_of(self@, name@)].kind,
    {
        match self.find(name) {
            Option::None => Option::None,
            Option::Some(i) => Option::Some(self.rows[i].kind),
        }
    }

    /// The back channel of the named entity, if it is registered.
    pub fn back_channel(&self, name: &String) -> (r: Option<&C>)
        requires
            self.wf(),
        ensures
            r is Some <==> contains_name(self@, name@),
            r matches Some(c) ==> *c == self@[idx_of(self@, name@)].back_channel,
    {
        match self.find(name) {
            Option::None => Option::None,
            Option::Some(i) => Option::Some(&self.rows[i].back_channel),
        }
    }

    /// Remove every row whose heartbeat has lapsed, and return the topics
    /// to unsubscribe from, in registry order.
    pub fn evict_expired(&mut self, now: u64) -> (evicted: Vec<String>)
        requires
            old(self).wf(),
        ensures
            final(self).wf(),
            final(self)@ == old(self)@.filter(|r: RowV<C>| spec_keep(r, now)),
            evicted@.map_values(|s: String| s@) == old(self)@.filter(
                |r: RowV<C>| !spec_keep(r, now),
            ).map_values(|r: RowV<C>| spec_entity_topic(r.name, r.kind)),
    {
        let ghost orig = self@;
        let ghost keep = |r: RowV<C>| spec_keep(r, now);
        let ghost dropped = |r: RowV<C>| !spec_keep(r, now);
        let mut evicted: Vec<String> = Vec::new();
        let mut i: usize = 0;
        let ghost mut processed: int = 0;
        proof {
            reveal(Seq::filter);
            assert(orig.subrange(0, 0) =~= Seq::<RowV<C>>::empty());
            assert(self@ =~= orig.subrange(0, 0).filter(keep) + orig.skip(0));
            assert(evicted@.map_values(|s: String| s@) =~= orig.subrange(0, 0).filter(
                dropped,
            ).map_values(|r: RowV<C>| spec_entity_topic(r.name, r.kind)));
        }
        while i < self.rows.len()
            invariant
                unique_names(orig),
                0 <= processed <= orig.len(),
                i == orig.subrange(0, processed).filter(keep).len(),
                self@ =~= orig.subrange(0, processed).filter(keep) + orig.skip(processed),
                evicted@.map_values(|s: String| s@) =~= orig.subrange(0, processed).filter(
                    dropped,
                ).map_values(|r: RowV<C>| spec_entity_topic(r.name, r.kind)),
                keep == (|r: RowV<C>| spec_keep(r, now)),
                dropped == (|r: RowV<C>| !spec_keep(r, now)),
            decreases orig.len() - processed,
        {
            proof {
                Seq::lemma_filter_len(orig.subrange(0, processed), keep);
                assert(self@.len() == i + (orig.len() - processed));
                assert(processed < orig.len());
                assert(self@[i as int] == orig.skip(processed)[0]);
                assert(orig.skip(processed)[0] == orig[processed]);
                assert(orig.subrange(0, processed + 1) =~= orig.subrange(0, processed).push(
                    orig[processed],
                ));
                lemma_filter_push(orig.subrange(0, processed), keep, orig[processed]);
                lemma_filter_push(orig.subrange(0, processed), dropped, orig[processed]);
            }
            let expired = now > self.rows[i].last_heartbeat.saturating_add(EVICTION_THRESHOLD_MS);
            if expired {
                let ghost prev = self@;
                let ghost prev_evicted = evicted@;
                let row = self.rows.remove(i);
                let topic = crate::topics::entity_topic(row.name.as_str(), row.kind);
                evicted.push(topic);
                proof {
                    assert(self@ =~= prev.remove(i as int));
                    assert(self@ =~= orig.subrange(0, processed + 1).filter(keep) + orig.skip(
                        processed + 1,
                    ));
                    assert(evicted@.map_values(|s: String| s@) =~= prev_evicted.map_values(
                        |s: String| s@,
                    ).push(spec_entity_topic(orig[processed].name, orig[processed].kind)));
                    assert(evicted@.map_values(|s: String| s@) =~= orig.subrange(
                        0,
                        processed + 1,
                    ).filter(dropped).map_values(
                        |r: RowV<C>| spec_entity_topic(r.name, r.kind),
                    ));
                }
            } else {
                i = i + 1;
                proof {
                    assert(self@ =~= orig.subrange(0, processed + 1).filter(keep) + orig.skip(
                        processed + 1,
                    ));
                }
            }
            proof {
                processed = processed + 1;
            }
        }
        proof {
            assert(processed == orig.len());
            assert(orig.subrange(0, orig.len() as int) =~= orig);
            assert(orig.skip(orig.len() as int) =~= Seq::<RowV<C>>::empty());
            assert(self@ =~= orig.filter(keep));
            lemma_unique_names_filter(orig, keep);
        }
        evicted
    }
}

/// A subsequence obtained by filtering keeps names unique.
pub proof fn lemma_unique_names_filter<C>(rows: Seq<RowV<C>>, pred: spec_fn(RowV<C>) -> bool)
    requires
        unique_names(rows),
    ensures
        unique_names(rows.filter(pred)),
    decreases rows.len(),
{
    reveal(Seq::filter);
    if rows.len() > 0 {
        let head = rows.drop_last();
        assert(unique_names(head)) by {
            assert(forall|i: int, j: int|
                0 <= i < head.len() && 0 <= j < head.len() && i != j ==> rows[i].name
                    != rows[j].name);
        }
        lemma_unique_names_filter(head, pred);
        if pred(rows.last()) {
            let f = head.filter(pred);
            assert forall|i: int|
                0 <= i < f.len() implies f[i].name != rows.last().name by {
                assert(f.contains(f[i]));
                Seq::lemma_filter_contains_rev(head, pred, f[i]);
                let j = choose|j: int| 0 <= j < head.len() && head[j] == f[i];
                assert(rows[j].name != rows[rows.len() - 1].name);
            }
        }
    }
}

/// The system-state snapshot of a row sequence: every row lands in exactly
/// one bucket, chosen by its current state, in registry order.
pub open spec fn spec_snapshot<C>(rows: Seq<RowV<C>>) -> SystemStateV
    decreases rows.len(),
{
    if rows.len() == 0 {
        SystemStateV {
            sensors: Seq::empty(),
            actuators: Seq::empty(),
            new_sensors: Seq::empty(),
            new_actuators: Seq::empty(),
        }
    } else {
        let rest = spec_snapshot(rows.drop_last());
        let row = rows.last();
        match row.state {
            EntityStateV::Sensor(m) => SystemStateV {
                sensors: rest.sensors.push((row.name, m)),
                actuators: rest.actuators,
                new_sensors: rest.new_sensors,
                new_actuators: rest.new_actuators,
            },
            EntityStateV::Actuator(s) => SystemStateV {
                sensors: rest.sensors,
                actuators: rest.actuators.push((row.name, s)),
                new_sensors: rest.new_sensors,
                new_actuators: rest.new_actuators,
            },
            EntityStateV::New(EntityType::Sensor) => SystemStateV {
                sensors: rest.sensors,
                actuators: rest.actuators,
                new_sensors: rest.new_sensors.push(row.name),
                new_actuators: rest.new_actuators,
            },
            EntityStateV::New(EntityType::Actuator) => SystemStateV {
                sensors: rest.sensors,
                actuators: rest.actuators,
                new_sensors: rest.new_sensors,
                new_actuators: rest.new_actuators.push(row.name),
            },
        }
    }
}

impl<C> Registry<C> {
    /// A consistent snapshot of the whole registry, for the client's
    /// system-state query.
    pub fn snapshot(&self) -> (r: SystemState)
        ensures
            r@ == spec_snapshot(self@),
    {
        let mut sensors: Vec<(String, SensorMeasurement)> = Vec::new();
        let mut actuators: Vec<(String, ActuatorState)> = Vec::new();
        let mut new_sensors: Vec<String> = Vec::new();
        let mut new_actuators: Vec<String> = Vec::new();
        let n = self.rows.len();
        let mut i: usize = 0;
        proof {
            assert(self@.take(0) =~= Seq::<RowV<C>>::empty());
            assert(sensors@.map_values(|p: (String, SensorMeasurement)| (p.0@, p.1@))
                =~= spec_snapshot(self@.take(0)).sensors);
            assert(actuators@.map_values(|p: (String, ActuatorState)| (p.0@, p.1))
                =~= spec_snapshot(self@.take(0)).actuators);
            assert(new_sensors@.map_values(|s: String| s@) =~= spec_snapshot(
                self@.take(0),
            ).new_sensors);
            assert(new_actuators@.map_values(|s: String| s@) =~= spec_snapshot(
                self@.take(0),
            ).new_actuators);
        }
        while i < n
            invariant
                0 <= i <= n,
                n == self@.len(),
                n == self.rows.len(),
                sensors@.map_values(|p: (String, SensorMeasurement)| (p.0@, p.1@))
                    =~= spec_snapshot(self@.take(i as int)).sensors,
                actuators@.map_values(|p: (String, ActuatorState)| (p.0@, p.1)) =~= spec_snapshot(
                    self@.take(i as int),
                ).actuators,
                new_sensors@.map_values(|s: String| s@) =~= spec_snapshot(
                    self@.take(i as int),
                ).new_sensors,
                new_actuators@.map_values(|s: String| s@) =~= spec_snapshot(
                    self@.take(i as int),
                ).new_actuators,
            decreases n - i,
        {
            let row = &self.rows[i];
            let name = row.name.clone();
            match &row.state {
                EntityState::Sensor(m) => {
                    let copy = SensorMeasurement { unit: m.unit.clone(), value: m.value };
                    sensors.push((name, copy));
                },
                EntityState::Actuator(s) => {
                    actuators.push((name, *s));
                },
                EntityState::New(EntityType::Sensor) => {
                    new_sensors.push(name);
                },
                EntityState::New(EntityType::Actuator) => {
                    new_actuators.push(name);
                },
            }
            proof {
                assert(self@.take(i + 1).drop_last() =~= self@.take(i as int));
                assert(self@.take(i + 1).last() == self@[i as int]);
                assert(sensors@.map_values(|p: (String, SensorMeasurement)| (p.0@, p.1@))
                    =~= spec_snapshot(self@.take(i + 1)).sensors);
                assert(actuators@.map_values(|p: (String, ActuatorState)| (p.0@, p.1))
                    =~= spec_snapshot(self@.take(i + 1)).actuators);
                assert(new_sensors@.map_values(|s: String| s@) =~= spec_snapshot(
                    self@.take(i + 1),
                ).new_sensors);
                assert(new_actuators@.map_values(|s: String| s@) =~= spec_snapshot(
                    self@.take(i + 1),
                ).new_actuators);
            }
            i = i + 1;
        }
        proof {
            assert(self@.take(n as int) =~= self@);
        }
        SystemState { sensors, actuators, new_sensors, new_actuators }
    }
}

/// Whether a name occurs as a key of the given pair sequence.
pub open spec fn name_in_pairs<X>(s: Seq<(Seq<char>, X)>, name: Seq<char>) -> bool {
    exists|i: int| 0 <= i < s.len() && s[i].0 == name
}

/// Whether a snapshot lists the name in its sensor-sample bucket.
pub open spec fn in_sensors(st: SystemStateV, name: Seq<char>) -> bool {
    name_in_pairs(st.sensors, name)
}

/// Whether a snapshot lists the name in its actuator-sample bucket.
pub open spec fn in_actuators(st: SystemStateV, name: Seq<char>) -> bool {
    name_in_pairs(st.actuators, name)
}

/// Whether a snapshot lists the name among the fresh sensors.
pub open spec fn in_new_sensors(st: SystemStateV, name: Seq<char>) -> bool {
    st.new_sensors.contains(name)
}

/// Whether a snapshot lists the name among the fresh actuators.
pub open spec fn in_new_actuators(st: SystemStateV, name: Seq<char>) -> bool {
    st.new_actuators.contains(name)
}

/// How many of a snapshot's four buckets mention the name.
pub open spec fn bucket_count(st: SystemStateV, name: Seq<char>) -> int {
    (if in_sensors(st, name) {
        1int
    } else {
        0int
    }) + (if in_actuators(st, name) {
        1int
    } else {
        0int
    }) + (if in_new_sensors(st, name) {
        1int
    } else {
        0int
    }) + (if in_new_actuators(st, name) {
        1int
    } else {
        0int
    })
}

/// Appending a pair whose name differs does not change whether a name
/// occurs among the pairs.
proof fn lemma_in_pairs_push<X>(s: Seq<(Seq<char>, X)>, elem: (Seq<char>, X), name: Seq<char>)
    requires
        elem.0 != name,
    ensures
        name_in_pairs(s.push(elem), name) <==> name_in_pairs(s, name),
{
    let t = s.push(elem);
    if name_in_pairs(t, name) {
        let i = choose|i: int| 0 <= i < t.len() && t[i].0 == name;
        assert(i < s.len() && s[i].0 == name);
        assert(name_in_pairs(s, name));
    }
    if name_in_pairs(s, name) {
        let i = choose|i: int| 0 <= i < s.len() && s[i].0 == name;
        assert(t[i].0 == name);
        assert(name_in_pairs(t, name));
    }
}

/// Appending a different name does not change whether a name occurs.
proof fn lemma_in_names_push(s: Seq<Seq<char>>, elem: Seq<char>, name: Seq<char>)
    requires
        elem != name,
    ensures
        s.push(elem).contains(name) <==> s.contains(name),
{
    let t = s.push(elem);
    if t.contains(name) {
        let i = choose|i: int| 0 <= i < t.len() && t[i] == name;
        assert(s[i] == name);
    }
    if s.contains(name) {
        let i = choose|i: int| 0 <= i < s.len() && s[i] == name;
        assert(t[i] == name);
    }
}

/// Query consistency: a snapshot of a registry with unique names never
/// lists the same name in two buckets, and only lists registered names.
pub proof fn lemma_snapshot_consistent<C>(rows: Seq<RowV<C>>, name: Seq<char>)
    requires
        unique_names(rows),
    ensures
        bucket_count(spec_snapshot(rows), name) <= 1,
        bucket_count(spec_snapshot(rows), name) == 1 ==> contains_name(rows, name),
    decreases rows.len(),
{
    if rows.len() > 0 {
        let head = rows.drop_last();
        let last = rows.last();
        assert(unique_names(head)) by {
            assert(forall|i: int, j: int|
                0 <= i < head.len() && 0 <= j < head.len() && i != j ==> head[i] == rows[i]
                    && head[j] == rows[j]);
        }
        lemma_snapshot_consistent(head, name);
        let st = spec_snapshot(rows);
        let rest = spec_snapshot(head);
        if name == last.name {
            assert(!contains_name(head, name)) by {
                if contains_name(head, name) {
                    let i = idx_of(head, name);
                    assert(rows[i].name == rows[rows.len() - 1].name);
                }
            }
            assert(bucket_count(rest, name) == 0) by {
                if in_sensors(rest, name) || in_actuators(rest, name) || in_new_sensors(
                    rest,
                    name,
                ) || in_new_actuators(rest, name) {
                    assert(bucket_count(rest, name) >= 1);
                    assert(contains_name(head, name));
                }
            }
            match last.state {
                EntityStateV::Sensor(m) => {
                    assert(st.sensors[st.sensors.len() - 1].0 == name);
                    assert(in_sensors(st, name));
                    assert(!in_actuators(st, name)) by {
                        if in_actuators(st, name) {
                            let i = choose|i: int|
                                0 <= i < st.actuators.len() && st.actuators[i].0 == name;
                            assert(in_actuators(rest, name));
                        }
                    }
                    assert(!in_new_sensors(st, name) && !in_new_actuators(st, name)) by {
                        assert(st.new_sensors == rest.new_sensors);
                        assert(st.new_actuators == rest.new_actuators);
                    }
                },
                EntityStateV::Actuator(_) => {
                    assert(st.actuators[st.actuators.len() - 1].0 == name);
                    assert(in_actuators(st, name));
                    assert(!in_sensors(st, name)) by {
                        if in_sensors(st, name) {
                            let i = choose|i: int|
                                0 <= i < st.sensors.len() && st.sensors[i].0 == name;
                            assert(in_sensors(rest, name));
                        }
                    }
                },
                EntityStateV::New(EntityType::Sensor) => {
                    assert(st.new_sensors[st.new_sensors.len() - 1] == name);
                    assert(in_new_sensors(st, name));
                    assert(!in_new_actuators(st, name));
                    assert(!in_sensors(st, name)) by {
                        if in_sensors(st, name) {
                            let i = choose|i: int|
                                0 <= i < st.sensors.len() && st.sensors[i].0 == name;
                            assert(in_sensors(rest, name));
                        }
                    }
                    assert(!in_actuators(st, name)) by {
                        if in_actuators(st, name) {
                            let i = choose|i: int|
                                0 <= i < st.actuators.len() && st.actuators[i].0 == name;
                            assert(in_actuators(rest, name));
                        }
                    }
                },
                EntityStateV::New(EntityType::Actuator) => {
                    assert(st.new_actuators[st.new_actuators.len() - 1] == name);
                    assert(in_new_actuators(st, name));
                    assert(!in_new_sensors(st, name));
                    assert(!in_sensors(st, name)) by {
                        if in_sensors(st, name) {
                            let i = choose|i: int|
                                0 <= i < st.sensors.len() && st.sensors[i].0 == name;
                            assert(in_sensors(rest, name));
                        }
                    }
                    assert(!in_actuators(st, name)) by {
                        if in_actuators(st, name) {
                            let i = choose|i: int|
                                0 <= i < st.actuators.len() && st.actuators[i].0 == name;
                            assert(in_actuators(rest, name));
                        }
                    }
                },
            }
            assert(contains_name(rows, name)) by {
                assert(rows[rows.len() - 1].name == name);
            }
        } else {
            match last.state {
                EntityStateV::Sensor(m) => {
                    lemma_in_pairs_push(rest.sensors, (last.name, m), name);
                    assert(st.sensors == rest.sensors.push((last.name, m)));
                    assert(in_sensors(st, name) == in_sensors(rest, name));
                    assert(bucket_count(st, name) == bucket_count(rest, name));
                },
                EntityStateV::Actuator(s) => {
                    lemma_in_pairs_push(rest.actuators, (last.name, s), name);
                    assert(st.actuators == rest.actuators.push((last.name, s)));
                    assert(in_actuators(st, name) == in_actuators(rest, name));
                    assert(bucket_count(st, name) == bucket_count(rest, name));
                },
                EntityStateV::New(EntityType::Sensor) => {
                    lemma_in_names_push(rest.new_sensors, last.name, name);
                    assert(st.new_sensors == rest.new_sensors.push(last.name));
                    assert(in_new_sensors(st, name) == in_new_sensors(rest, name));
                    assert(bucket_count(st, name) == bucket_count(rest, name));
                },
                EntityStateV::New(EntityType::Actuator) => {
                    lemma_in_names_push(rest.new_actuators, last.name, name);
                    assert(st.new_actuators == rest.new_actuators.push(last.name));
                    assert(in_new_actuators(st, name) == in_new_actuators(rest, name));
                    assert(bucket_count(st, name) == bucket_count(rest, name));
                },
            }
            assert(bucket_count(st, name) == bucket_count(rest, name));
            if bucket_count(st, name) == 1 {
                assert(contains_name(head, name));
                let i = idx_of(head, name);
                assert(rows[i].name == name);
            }
        }
    }
}

/// How many rows carry the given name.
pub open spec fn count_name<C>(rows: Seq<RowV<C>>, name: Seq<char>) -> int
    decreases rows.len(),
{
    if rows.len() == 0 {
        0
    } else {
        count_name(rows.drop_last(), name) + (if rows.last().name == name {
            1int
        } else {
            0int
        })
    }
}

/// Registry uniqueness: registering a free name takes it, so a second
/// register for the same name is refused, and exactly one row carries it.
pub proof fn lemma_register_uniqueness<C>(rows: Seq<RowV<C>>, row: RowV<C>)
    requires
        unique_names(rows),
        !contains_name(rows, row.name),
    ensures
        contains_name(rows.push(row), row.name),
        unique_names(rows.push(row)),
        count_name(rows.push(row), row.name) == 1,
{
    let all = rows.push(row);
    assert(all[all.len() - 1].name == row.name);
    assert(forall|i: int| 0 <= i < rows.len() ==> rows[i].name != row.name) by {
        assert forall|i: int| 0 <= i < rows.len() implies rows[i].name != row.name by {
            if rows[i].name == row.name {
                assert(contains_name(rows, row.name));
            }
        }
    }
    assert(all.drop_last() =~= rows);
    lemma_count_name_absent(rows, row.name);
}

/// A name that no row carries is counted zero times.
proof fn lemma_count_name_absent<C>(rows: Seq<RowV<C>>, name: Seq<char>)
    requires
        !contains_name(rows, name),
    ensures
        count_name(rows, name) == 0,
    decreases rows.len(),
{
    if rows.len() > 0 {
        let head = rows.drop_last();
        assert(!contains_name(head, name)) by {
            if contains_name(head, name) {
                let i = idx_of(head, name);
                assert(rows[i].name == name);
            }
        }
        lemma_count_name_absent(head, name);
        assert(rows.last().name != name) by {
            if rows.last().name == name {
                assert(rows[rows.len() - 1].name == name);
            }
        }
    }
}

/// Heartbeat liveness: a row whose heartbeat is fresh enough survives a
/// sweep; one whose heartbeat has lapsed does not.
pub proof fn lemma_sweep_liveness<C>(rows: Seq<RowV<C>>, name: Seq<char>, now: u64)
    requires
        unique_names(rows),
        contains_name(rows, name),
    ensures
        spec_keep(rows[idx_of(rows, name)], now) ==> contains_name(
            rows.filter(|r: RowV<C>| spec_keep(r, now)),
            name,
        ),
        !spec_keep(rows[idx_of(rows, name)], now) ==> !contains_name(
            rows.filter(|r: RowV<C>| spec_keep(r, now)),
            name,
        ),
{
    let pred = |r: RowV<C>| spec_keep(r, now);
    let i = idx_of(rows, name);
    let kept = rows.filter(pred);
    if spec_keep(rows[i], now) {
        Seq::lemma_filter_contains(rows, pred, i);
        let j = choose|j: int| 0 <= j < kept.len() && kept[j] == rows[i];
        assert(kept[j].name == name);
    } else {
        if contains_name(kept, name) {
            let j = idx_of(kept, name);
            assert(kept.contains(kept[j]));
            Seq::lemma_filter_contains_rev(rows, pred, kept[j]);
            let k = choose|k: int| 0 <= k < rows.len() && rows[k] == kept[j];
            assert(k == i);
            Seq::lemma_filter_pred(rows, pred, j);
        }
    }
}

/// Filtering one more element keeps the filtered prefix and appends the
/// element exactly when it satisfies the predicate.
pub proof fn lemma_filter_push<A>(s: Seq<A>, pred: spec_fn(A) -> bool, x: A)
    ensures
        s.push(x).filter(pred) == (if pred(x) {
            s.filter(pred).push(x)
        } else {
            s.filter(pred)
        }),
{
    reveal(Seq::filter);
    assert(s.push(x).drop_last() =~= s);
    assert(s.push(x).last() == x);
}

} // verus!
