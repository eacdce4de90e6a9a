//! Subscription parity.
//!
//! The controller subscribes to a topic when a row is inserted and
//! unsubscribes when the row leaves, whether by request or by eviction.
//! This module models the lifecycle events that change the registry, the
//! subscription commands their handlers emit, and proves that after any
//! sequence of events the set of active subscriptions equals the set of
//! topics of the registered entities.

use vstd::prelude::*;

use crate::messages::{EntityStateV, EntityType};
use crate::registry::{contains_name, idx_of, spec_keep, unique_names, RowV};
use crate::topics::{lemma_entity_topic_injective, spec_entity_topic};

verus! {

/// A lifecycle event: everything that touches the registry. Registers,
/// unregisters and sweeps change the set of registered entities; heartbeats
/// and published samples only rewrite one row in place.
pub ghost enum LifecycleEvent<C> {
    /// A register request, with the back channel that was opened for it.
    Register { name: Seq<char>, kind: EntityType, back_channel: C, now: u64 },
    /// An unregister request.
    Unregister { name: Seq<char> },
    /// One pass of the timeout sweeper.
    Sweep { now: u64 },
    /// A heartbeat, refreshing the named row's timestamp.
    Heartbeat { name: Seq<char>, now: u64 },
    /// A published sample, overwriting the named row's state.
    Sample { name: Seq<char>, state: EntityStateV },
}

/// The topics of the registry's rows, as a set.
pub open spec fn set_topics<C>(rows: Seq<RowV<C>>) -> Set<Seq<char>> {
    rows.map_values(|r: RowV<C>| spec_entity_topic(r.name, r.kind)).to_set()
}

/// The registry rows after one event, mirroring what the handlers do: a
/// register for a taken name, or an unregister for an unknown one, is
/// refused and changes nothing.
pub open spec fn spec_step_rows<C>(rows: Seq<RowV<C>>, ev: LifecycleEvent<C>) -> Seq<RowV<C>> {
    match ev {
        LifecycleEvent::Register { name, kind, back_channel, now } => {
            if contains_name(rows, name) {
                rows
            } else {
                rows.push(
                    RowV {
                        name,
                        kind,
                        state: EntityStateV::New(kind),
                        last_heartbeat: now,
                        back_channel,
                    },
                )
            }
        },
        LifecycleEvent::Unregister { name } => {
            if contains_name(rows, name) {
                rows.remove(idx_of(rows, name))
            } else {
                rows
            }
        },
        LifecycleEvent::Sweep { now } => rows.filter(|r: RowV<C>| spec_keep(r, now)),
        LifecycleEvent::Heartbeat { name, now } => {
            if contains_name(rows, name) {
                let i = idx_of(rows, name);
                let row = rows[i];
                rows.update(
                    i,
                    RowV {
                        name: row.name,
                        kind: row.kind,
                        state: row.state,
                        last_heartbeat: if now >= row.last_heartbeat {
                            now
                        } else {
                            row.last_heartbeat
                        },
                        back_channel: row.back_channel,
                    },
                )
            } else {
                rows
            }
        },
        LifecycleEvent::Sample { name, state } => {
            if contains_name(rows, name) {
                let i = idx_of(rows, name);
                let row = rows[i];
                rows.update(
                    i,
                    RowV {
                        name: row.name,
                        kind: row.kind,
                        state,
                        last_heartbeat: row.last_heartbeat,
                        back_channel: row.back_channel,
                    },
                )
            } else {
                rows
            }
        },
    }
}

/// The subscription set after the commands emitted for one event are
/// applied: a subscribe inserts its topic, an unsubscribe removes it.
pub open spec fn spec_step_subs<C>(
    subs: Set<Seq<char>>,
    rows: Seq<RowV<C>>,
    ev: LifecycleEvent<C>,
) -> Set<Seq<char>> {
    match ev {
        LifecycleEvent::Register { name, kind, back_channel: _, now: _ } => {
            if contains_name(rows, name) {
                subs
            } else {
                subs.insert(spec_entity_topic(name, kind))
            }
        },
        LifecycleEvent::Unregister { name } => {
            if contains_name(rows, name) {
                subs.remove(spec_entity_topic(name, rows[idx_of(rows, name)].kind))
            } else {
                subs
            }
        },
        LifecycleEvent::Sweep { now } => subs.difference(
            set_topics(rows.filter(|r: RowV<C>| !spec_keep(r, now))),
        ),
        LifecycleEvent::Heartbeat { .. } => subs,
        LifecycleEvent::Sample { .. } => subs,
    }
}

/// The registry rows after a whole event history, from an empty registry.
pub open spec fn spec_run_rows<C>(events: Seq<LifecycleEvent<C>>) -> Seq<RowV<C>>
    decreases events.len(),
{
    if events.len() == 0 {
        Seq::empty()
    } else {
        spec_step_rows(spec_run_rows(events.drop_last()), events.last())
    }
}

/// The subscription set after a whole event history, from no subscriptions.
pub open spec fn spec_run_subs<C>(events: Seq<LifecycleEvent<C>>) -> Set<Seq<char>>
    decreases events.len(),
{
    if events.len() == 0 {
        Set::empty()
    } else {
        spec_step_subs(
            spec_run_subs(events.drop_last()),
            spec_run_rows(events.drop_last()),
            events.last(),
        )
    }
}

/// A topic is in `set_topics` exactly when some row publishes on it.
proof fn lemma_set_topics_member<C>(rows: Seq<RowV<C>>, t: Seq<char>)
    ensures
        set_topics(rows).contains(t) <==> exists|k: int|
            0 <= k < rows.len() && spec_entity_topic(rows[k].name, rows[k].kind) == t,
{
    let mapped = rows.map_values(|r: RowV<C>| spec_entity_topic(r.name, r.kind));
    if mapped.contains(t) {
        let k = choose|k: int| 0 <= k < mapped.len() && mapped[k] == t;
        assert(spec_entity_topic(rows[k].name, rows[k].kind) == t);
    }
    if exists|k: int| 0 <= k < rows.len() && spec_entity_topic(rows[k].name, rows[k].kind) == t {
        let k = choose|k: int|
            0 <= k < rows.len() && spec_entity_topic(rows[k].name, rows[k].kind) == t;
        assert(mapped[k] == t);
        assert(mapped.contains(t));
    }
}

/// With unique names, distinct rows publish on distinct topics.
proof fn lemma_topics_distinct<C>(rows: Seq<RowV<C>>, i: int, j: int)
    requires
        unique_names(rows),
        0 <= i < rows.len(),
        0 <= j < rows.len(),
        i != j,
    ensures
        spec_entity_topic(rows[i].name, rows[i].kind) != spec_entity_topic(
            rows[j].name,
            rows[j].kind,
        ),
{
    if spec_entity_topic(rows[i].name, rows[i].kind) == spec_entity_topic(
        rows[j].name,
        rows[j].kind,
    ) {
        lemma_entity_topic_injective(rows[i].name, rows[i].kind, rows[j].name, rows[j].kind);
    }
}

/// One event preserves parity: if the subscriptions equal the topics of the
/// rows, they still do after the event's handler has run and its commands
/// have been applied.
pub proof fn lemma_step_preserves_parity<C>(
    subs: Set<Seq<char>>,
    rows: Seq<RowV<C>>,
    ev: LifecycleEvent<C>,
)
    requires
        unique_names(rows),
        subs == set_topics(rows),
    ensures
        unique_names(spec_step_rows(rows, ev)),
        spec_step_subs(subs, rows, ev) == set_topics(spec_step_rows(rows, ev)),
{
    let rows2 = spec_step_rows(rows, ev);
    let subs2 = spec_step_subs(subs, rows, ev);
    match ev {
        LifecycleEvent::Register { name, kind, back_channel, now } => {
            if !contains_name(rows, name) {
                let row = RowV {
                    name,
                    kind,
                    state: EntityStateV::New(kind),
                    last_heartbeat: now,
                    back_channel,
                };
                crate::registry::lemma_register_uniqueness(rows, row);
                let topic = spec_entity_topic(name, kind);
                assert forall|t: Seq<char>| subs2.contains(t) implies set_topics(
                    rows2,
                ).contains(t) by {
                    lemma_set_topics_member(rows, t);
                    lemma_set_topics_member(rows2, t);
                    if t == topic {
                        assert(spec_entity_topic(rows2[rows.len() as int].name, rows2[rows.len() as int].kind) == t);
                    } else {
                        let k = choose|k: int|
                            0 <= k < rows.len() && spec_entity_topic(rows[k].name, rows[k].kind)
                                == t;
                        assert(spec_entity_topic(rows2[k].name, rows2[k].kind) == t);
                    }
                }
                assert forall|t: Seq<char>| set_topics(rows2).contains(t) implies subs2.contains(
                    t,
                ) by {
                    lemma_set_topics_member(rows, t);
                    lemma_set_topics_member(rows2, t);
                    let k = choose|k: int|
                        0 <= k < rows2.len() && spec_entity_topic(rows2[k].name, rows2[k].kind)
                            == t;
                    if k < rows.len() {
                        assert(spec_entity_topic(rows[k].name, rows[k].kind) == t);
                    } else {
                        assert(t == topic);
                    }
                }
                assert(subs2 =~= set_topics(rows2));
            }
        },
        LifecycleEvent::Unregister { name } => {
            if contains_name(rows, name) {
                let i = idx_of(rows, name);
                let topic = spec_entity_topic(rows[i].name, rows[i].kind);
                assert(unique_names(rows2)) by {
                    assert forall|a: int, b: int|
                        0 <= a < rows2.len() && 0 <= b < rows2.len() && a != b implies rows2[a].name
                        != rows2[b].name by {
                        let a0 = if a < i {
                            a
                        } else {
                            a + 1
                        };
                        let b0 = if b < i {
                            b
                        } else {
                            b + 1
                        };
                        assert(rows2[a] == rows[a0] && rows2[b] == rows[b0]);
                    }
                }
                assert forall|t: Seq<char>| subs2.contains(t) implies set_topics(
                    rows2,
                ).contains(t) by {
                    lemma_set_topics_member(rows, t);
                    lemma_set_topics_member(rows2, t);
                    let k = choose|k: int|
                        0 <= k < rows.len() && spec_entity_topic(rows[k].name, rows[k].kind) == t;
                    assert(k != i) by {
                        if k == i {
                            assert(t == topic);
                        }
                    }
                    let k2 = if k < i {
                        k
                    } else {
                        k - 1
                    };
                    assert(rows2[k2] == rows[k]);
                    assert(spec_entity_topic(rows2[k2].name, rows2[k2].kind) == t);
                }
                assert forall|t: Seq<char>| set_topics(rows2).contains(t) implies subs2.contains(
                    t,
                ) by {
                    lemma_set_topics_member(rows, t);
                    lemma_set_topics_member(rows2, t);
                    let k = choose|k: int|
                        0 <= k < rows2.len() && spec_entity_topic(rows2[k].name, rows2[k].kind)
                            == t;
                    let k0 = if k < i {
                        k
                    } else {
                        k + 1
                    };
                    assert(rows2[k] == rows[k0]);
                    assert(spec_entity_topic(rows[k0].name, rows[k0].kind) == t);
                    assert(t != topic) by {
                        if t == topic {
                            lemma_topics_distinct(rows, k0, i);
                        }
                    }
                }
                assert(subs2 =~= set_topics(rows2));
            }
        },
        LifecycleEvent::Sweep { now } => {
            let keep = |r: RowV<C>| spec_keep(r, now);
            let lapsed = |r: RowV<C>| !spec_keep(r, now);
            let kept = rows.filter(keep);
            let gone = rows.filter(lapsed);
            assert(unique_names(kept)) by {
                crate::registry::lemma_unique_names_filter(rows, keep);
            }
            assert forall|t: Seq<char>| set_topics(kept).contains(t) implies subs2.contains(
                t,
            ) by {
                lemma_set_topics_member(kept, t);
                lemma_set_topics_member(rows, t);
                lemma_set_topics_member(gone, t);
                let k = choose|k: int|
                    0 <= k < kept.len() && spec_entity_topic(kept[k].name, kept[k].kind) == t;
                assert(kept.contains(kept[k]));
                Seq::lemma_filter_contains_rev(rows, keep, kept[k]);
                let k0 = choose|k0: int| 0 <= k0 < rows.len() && rows[k0] == kept[k];
                Seq::lemma_filter_pred(rows, keep, k);
                assert(set_topics(rows).contains(t));
                assert(!set_topics(gone).contains(t)) by {
                    if set_topics(gone).contains(t) {
                        let g = choose|g: int|
                            0 <= g < gone.len() && spec_entity_topic(gone[g].name, gone[g].kind)
                                == t;
                        assert(gone.contains(gone[g]));
                        Seq::lemma_filter_contains_rev(rows, lapsed, gone[g]);
                        let g0 = choose|g0: int| 0 <= g0 < rows.len() && rows[g0] == gone[g];
                        Seq::lemma_filter_pred(rows, lapsed, g);
                        if g0 != k0 {
                            lemma_topics_distinct(rows, g0, k0);
                        } else {
                            assert(keep(rows[k0]) && lapsed(rows[g0]));
                        }
                    }
                }
            }
            assert forall|t: Seq<char>| subs2.contains(t) implies set_topics(kept).contains(
                t,
            ) by {
                lemma_set_topics_member(kept, t);
                lemma_set_topics_member(rows, t);
                lemma_set_topics_member(gone, t);
                let k = choose|k: int|
                    0 <= k < rows.len() && spec_entity_topic(rows[k].name, rows[k].kind) == t;
                if keep(rows[k]) {
                    Seq::lemma_filter_contains(rows, keep, k);
                    let j = choose|j: int| 0 <= j < kept.len() && kept[j] == rows[k];
                    assert(spec_entity_topic(kept[j].name, kept[j].kind) == t);
                } else {
                    Seq::lemma_filter_contains(rows, lapsed, k);
                    let j = choose|j: int| 0 <= j < gone.len() && gone[j] == rows[k];
                    assert(spec_entity_topic(gone[j].name, gone[j].kind) == t);
                }
            }
            assert(subs2 =~= set_topics(kept));
        },
        LifecycleEvent::Heartbeat { name, now: _ } => {
            if contains_name(rows, name) {
                lemma_row_rewrite_keeps_topics(rows, rows2);
            }
        },
        LifecycleEvent::Sample { name, state: _ } => {
            if contains_name(rows, name) {
                lemma_row_rewrite_keeps_topics(rows, rows2);
            }
        },
    }
}

/// Rewriting rows in place, without touching any name or kind, changes
/// neither name uniqueness nor the topic set.
proof fn lemma_row_rewrite_keeps_topics<C>(rows: Seq<RowV<C>>, rows2: Seq<RowV<C>>)
    requires
        unique_names(rows),
        rows2.len() == rows.len(),
        forall|i: int|
            0 <= i < rows.len() ==> #[trigger] rows2[i].name == rows[i].name && rows2[i].kind
                == rows[i].kind,
    ensures
        unique_names(rows2),
        set_topics(rows2) == set_topics(rows),
{
    assert forall|t: Seq<char>| set_topics(rows2).contains(t) implies set_topics(
        rows,
    ).contains(t) by {
        lemma_set_topics_member(rows2, t);
        lemma_set_topics_member(rows, t);
        let k = choose|k: int|
            0 <= k < rows2.len() && spec_entity_topic(rows2[k].name, rows2[k].kind) == t;
        assert(spec_entity_topic(rows[k].name, rows[k].kind) == t);
    }
    assert forall|t: Seq<char>| set_topics(rows).contains(t) implies set_topics(
        rows2,
    ).contains(t) by {
        lemma_set_topics_member(rows2, t);
        lemma_set_topics_member(rows, t);
        let k = choose|k: int|
            0 <= k < rows.len() && spec_entity_topic(rows[k].name, rows[k].kind) == t;
        assert(spec_entity_topic(rows2[k].name, rows2[k].kind) == t);
    }
    assert(set_topics(rows2) =~= set_topics(rows));
}

/// Subscription parity: after any sequence of register, unregister,
/// heartbeat, sample and eviction events, the active subscriptions are
/// exactly the topics of the registered entities.
pub proof fn lemma_subscription_parity<C>(events: Seq<LifecycleEvent<C>>)
    ensures
        unique_names(spec_run_rows(events)),
        spec_run_subs(events) == set_topics(spec_run_rows(events)),
    decreases events.len(),
{
    if events.len() == 0 {
        assert(spec_run_subs(events) =~= set_topics(spec_run_rows(events))) by {
            assert(spec_run_rows::<C>(events).map_values(
                |r: RowV<C>| spec_entity_topic(r.name, r.kind),
            ) =~= Seq::<Seq<char>>::empty());
        }
    } else {
        let head = events.drop_last();
        lemma_subscription_parity(head);
        lemma_step_preserves_parity(spec_run_subs(head), spec_run_rows(head), events.last());
    }
}

} // verus!
