//! What holds of finding brokers among containers, and of what a pass of discovery does
//! to each broker of the fleet.

#[allow(unused_imports)]
use vstd::prelude::*;

#[allow(unused_imports)]
use crate::config::{BrokerConfig, BrokerConfigView};
#[allow(unused_imports)]
use crate::discovery::{
    broker_of, brokers_of, label_value, lists_brokers, mqtt_host_port, orders_for, stops,
    ContainerSummary, PortBinding, Protocol, StoppedBroker,
};
#[allow(unused_imports)]
use crate::registry::{BrokerRuntime, Fleet, FleetView, SpawnOrder};
#[allow(unused_imports)]
use crate::text::without_leading;

verus! {

/// The value of a label is that of the first entry with its key; without such an entry
/// there is none.
pub proof fn first_entry_of_a_label_counts(labels: Seq<(String, String)>, key: Seq<char>) -> (at:
    int)
    ensures
        label_value(labels, key) matches Some(value) ==> {
            &&& 0 <= at < labels.len()
            &&& labels[at].0@ == key
            &&& labels[at].1@ == value
            &&& forall|i: int| 0 <= i < at ==> (#[trigger] labels[i]).0@ != key
        },
        label_value(labels, key) is None ==> forall|i: int|
            0 <= i < labels.len() ==> (#[trigger] labels[i]).0@ != key,
    decreases labels.len(),
{
    if labels.len() == 0 || labels.first().0@ == key {
        0
    } else {
        let rest = labels.drop_first();
        let at = first_entry_of_a_label_counts(rest, key);
        assert forall|i: int| 0 < i < labels.len() implies #[trigger] labels[i] == rest[i - 1] by {
        }
        at + 1
    }
}

/// The host port is the one under which the first binding of the container's TCP port
/// 1883 is published. A binding of another protocol does not count; one that names none
/// does.
pub proof fn first_binding_of_1883_counts(ports: Seq<PortBinding>) -> (at: int)
    ensures
        ({
            let serves = |port: PortBinding|
                port.private_port == 1883 && port.protocol != Protocol::Udp && port.protocol
                    != Protocol::Sctp;
            if exists|i: int| 0 <= i < ports.len() && serves(#[trigger] ports[i]) {
                &&& 0 <= at < ports.len()
                &&& serves(ports[at])
                &&& forall|i: int| 0 <= i < at ==> !serves(#[trigger] ports[i])
                &&& mqtt_host_port(ports) == ports[at].public_port
            } else {
                mqtt_host_port(ports) is None
            }
        }),
    decreases ports.len(),
{
    let serves = |port: PortBinding|
        port.private_port == 1883 && port.protocol != Protocol::Udp && port.protocol
            != Protocol::Sctp;
    if ports.len() == 0 {
        0
    } else if serves(ports.first()) {
        assert(serves(ports[0]));
        0
    } else {
        let rest = ports.drop_first();
        let at = first_binding_of_1883_counts(rest);
        assert forall|i: int| 0 < i < ports.len() implies #[trigger] ports[i] == rest[i - 1] by {
        }
        if exists|i: int| 0 <= i < ports.len() && serves(#[trigger] ports[i]) {
            let i = choose|i: int| 0 <= i < ports.len() && serves(#[trigger] ports[i]);
            assert(i > 0);
            assert(serves(rest[i - 1]));
        }
        if exists|i: int| 0 <= i < rest.len() && serves(#[trigger] rest[i]) {
            let i = choose|i: int| 0 <= i < rest.len() && serves(#[trigger] rest[i]);
            assert(serves(ports[i + 1]));
        }
        at + 1
    }
}

/// A container is a broker's exactly when it has the id label, a name, and its MQTT port
/// published. The broker has the label's id, is reached at that port of the local host,
/// and has the container's first name without the slashes before it.
pub proof fn broker_is_what_the_container_says(container: ContainerSummary)
    ensures
        broker_of(container) is Some <==> {
            &&& container.labels is Some
            &&& label_value(container.labels->0@, "progressbox.broker_id"@) is Some
            &&& container.names is Some
            &&& container.names->0@.len() > 0
            &&& container.ports is Some
            &&& mqtt_host_port(container.ports->0@) is Some
        },
        broker_of(container) matches Some(broker) ==> {
            &&& label_value(container.labels->0@, "progressbox.broker_id"@) == Some(broker.id)
            &&& broker.mqtt_host == "localhost"@
            &&& mqtt_host_port(container.ports->0@) == Some(broker.mqtt_port)
            &&& broker.container_name == without_leading(container.names->0@[0]@, '/')
        },
{
}

/// The container is that of a broker with the id `id`.
pub open spec fn has_id(container: ContainerSummary, id: Seq<char>) -> bool {
    broker_of(container) is Some && broker_of(container)->0.id == id
}

/// Of the containers with one id the last one counts.
pub proof fn last_container_of_an_id_counts(containers: Seq<ContainerSummary>, id: Seq<char>) -> (at:
    int)
    ensures
        if exists|i: int| 0 <= i < containers.len() && has_id(#[trigger] containers[i], id) {
            &&& 0 <= at < containers.len()
            &&& has_id(containers[at], id)
            &&& forall|i: int| at < i < containers.len() ==> !has_id(#[trigger] containers[i], id)
            &&& brokers_of(containers).contains_key(id)
            &&& brokers_of(containers)[id] == broker_of(containers[at])->0
        } else {
            !brokers_of(containers).contains_key(id)
        },
    decreases containers.len(),
{
    if containers.len() == 0 {
        0
    } else if has_id(containers.last(), id) {
        assert(has_id(containers[containers.len() - 1], id));
        containers.len() - 1
    } else {
        let rest = containers.drop_last();
        let at = last_container_of_an_id_counts(rest, id);
        assert forall|i: int| 0 <= i < rest.len() implies #[trigger] rest[i] == containers[i] by {}
        if exists|i: int| 0 <= i < containers.len() && has_id(#[trigger] containers[i], id) {
            let i = choose|i: int| 0 <= i < containers.len() && has_id(#[trigger] containers[i], id);
            assert(i < rest.len());
            assert(has_id(rest[i], id));
            assert(containers[at] == rest[at]);
            assert forall|j: int| at < j < containers.len() implies !has_id(
                #[trigger] containers[j],
                id,
            ) by {
                if j < rest.len() {
                    assert(rest[j] == containers[j]);
                }
            }
        } else {
            assert forall|i: int| 0 <= i < rest.len() implies !has_id(#[trigger] rest[i], id) by {
                assert(rest[i] == containers[i]);
            }
        }
        at
    }
}

/// A list of what was found has each broker once, as it was found, and no other.
pub proof fn list_has_each_found_broker_once(
    list: Seq<BrokerConfig>,
    found: Map<Seq<char>, BrokerConfigView>,
    id: Seq<char>,
)
    requires
        lists_brokers(list, found),
    ensures
        found.contains_key(id) <==> exists|i: int|
            0 <= i < list.len() && (#[trigger] list[i]).id@ == id,
        forall|i: int|
            0 <= i < list.len() && (#[trigger] list[i]).id@ == id ==> list[i]@ == found[id],
        forall|i: int, j: int|
            0 <= i < list.len() && 0 <= j < list.len() && (#[trigger] list[i]).id@ == (
            #[trigger] list[j]).id@ ==> i == j,
{
}

/// A pass takes a broker off, with its tasks and its metrics, exactly when it is
/// registered and marked and the pass does not find it. Every other broker keeps its
/// tasks and its metrics, found or not, registered or not.
pub proof fn pass_takes_off_the_vanished_alone<H>(
    fleet: FleetView<H>,
    found: Set<Seq<char>>,
    id: Seq<char>,
)
    ensures
        ({
            let after = fleet.reconciled(found);
            if fleet.handles.contains_key(id) && fleet.discovered.contains(id) && !found.contains(
                id,
            ) {
                &&& fleet.vanished(found).contains(id)
                &&& !after.handles.contains_key(id)
                &&& !after.metrics.contains_key(id)
            } else {
                &&& !fleet.vanished(found).contains(id)
                &&& after.handles.contains_key(id) == fleet.handles.contains_key(id)
                &&& fleet.handles.contains_key(id) ==> after.handles[id] == fleet.handles[id]
                &&& after.metrics.contains_key(id) == fleet.metrics.contains_key(id)
                &&& fleet.metrics.contains_key(id) ==> after.metrics[id] == fleet.metrics[id]
            }
        }),
{
}

/// A pass keeps the suppression of exactly the ids that it finds, and marks exactly
/// those.
pub proof fn pass_settles_suppressions_and_marks<H>(
    fleet: FleetView<H>,
    found: Set<Seq<char>>,
    id: Seq<char>,
)
    ensures
        fleet.reconciled(found).suppressed.contains(id) == (fleet.suppressed.contains(id)
            && found.contains(id)),
        fleet.reconciled(found).discovered.contains(id) == found.contains(id),
{
}

/// A pass brings up exactly the brokers that it finds, that are not registered and that
/// nobody took off by hand.
pub proof fn pass_brings_up_the_new_alone<H>(
    fleet: FleetView<H>,
    found: Set<Seq<char>>,
    id: Seq<char>,
)
    ensures
        fleet.newcomers(found).contains(id) == (found.contains(id) && !fleet.handles.contains_key(
            id,
        ) && !fleet.suppressed.contains(id)),
{
}

/// Registering the newcomers gives each its tasks and changes nothing else: not the
/// tasks of the others, not the metrics, not the marks.
pub proof fn bringing_up_adds_tasks_alone<H>(
    fleet: FleetView<H>,
    tasks: Map<Seq<char>, Seq<H>>,
    id: Seq<char>,
)
    ensures
        ({
            let after = fleet.all_spawned(tasks);
            &&& after.metrics == fleet.metrics
            &&& after.discovered == fleet.discovered
            &&& after.handles.contains_key(id) == (tasks.contains_key(id)
                || fleet.handles.contains_key(id))
            &&& tasks.contains_key(id) ==> after.handles[id] == tasks[id]
            &&& !tasks.contains_key(id) && fleet.handles.contains_key(id) ==> after.handles[id]
                == fleet.handles[id]
            &&& after.suppressed.contains(id) == (fleet.suppressed.contains(id)
                && !tasks.contains_key(id))
        }),
{
}

/// The orders of a pass are one for each broker that it brings up, and no other: each is
/// for the broker as it was found, at the intervals of the runtime, and aborts nothing.
pub proof fn orders_bring_up_each_newcomer_once<H>(
    orders: Seq<SpawnOrder<H>>,
    ids: Set<Seq<char>>,
    found: Map<Seq<char>, BrokerConfigView>,
    runtime: BrokerRuntime,
    id: Seq<char>,
)
    requires
        orders_for(orders, ids, found, runtime),
    ensures
        ids.contains(id) <==> exists|i: int|
            0 <= i < orders.len() && (#[trigger] orders[i]).broker.id@ == id,
        forall|i: int|
            0 <= i < orders.len() && (#[trigger] orders[i]).broker.id@ == id ==> {
                &&& orders[i].broker@ == found[id]
                &&& orders[i].abort@ == Seq::<H>::empty()
                &&& orders[i].mqtt_interval == runtime.mqtt_interval
                &&& orders[i].docker_interval == runtime.docker_interval
            },
        forall|i: int, j: int|
            0 <= i < orders.len() && 0 <= j < orders.len() && (#[trigger] orders[i]).broker.id@ == (
            #[trigger] orders[j]).broker.id@ ==> i == j,
{
    assert forall|i: int| 0 <= i < orders.len() && (#[trigger] orders[i]).broker.id@ == id implies {
        &&& orders[i].broker@ == found[id]
        &&& orders[i].abort@ == Seq::<H>::empty()
        &&& orders[i].mqtt_interval == runtime.mqtt_interval
        &&& orders[i].docker_interval == runtime.docker_interval
    } by {
        assert(orders[i].abort@ =~= Seq::<H>::empty());
    }
}

/// What a pass stops is each broker that it takes off, once, with all its tasks to be
/// aborted, and no other.
pub proof fn stops_abort_the_tasks_of_each_vanished_broker<H>(
    stopped: Seq<StoppedBroker<H>>,
    ids: Set<Seq<char>>,
    handles: Map<Seq<char>, Seq<H>>,
    id: Seq<char>,
)
    requires
        stops(stopped, ids, handles),
    ensures
        ids.contains(id) <==> exists|i: int|
            0 <= i < stopped.len() && (#[trigger] stopped[i]).id@ == id,
        forall|i: int|
            0 <= i < stopped.len() && (#[trigger] stopped[i]).id@ == id ==> stopped[i].abort@
                == handles[id],
        forall|i: int, j: int|
            0 <= i < stopped.len() && 0 <= j < stopped.len() && (#[trigger] stopped[i]).id@ == (
            #[trigger] stopped[j]).id@ ==> i == j,
{
}

/// Stopping a registered broker takes off its tasks and its metrics and leaves the marks;
/// stopping another changes nothing.
pub proof fn stopping_takes_off_tasks_and_metrics<H>(
    fleet: FleetView<H>,
    id: Seq<char>,
    other: Seq<char>,
)
    ensures
        ({
            let after = fleet.stopped(id);
            &&& after.suppressed == fleet.suppressed
            &&& after.discovered == fleet.discovered
            &&& after.handles.contains_key(other) == (fleet.handles.contains_key(other) && other
                != id)
            &&& after.handles.contains_key(other) ==> after.handles[other] == fleet.handles[other]
            &&& after.metrics.contains_key(other) == (fleet.metrics.contains_key(other) && (other
                != id || !fleet.handles.contains_key(id)))
            &&& after.metrics.contains_key(other) ==> after.metrics[other] == fleet.metrics[other]
        }),
{
}

/// Taking a broker off by hand stops it and suppresses it where it was registered, and
/// changes nothing where it was not.
pub proof fn removal_by_hand_stops_and_suppresses<H>(
    fleet: FleetView<H>,
    id: Seq<char>,
    other: Seq<char>,
)
    ensures
        fleet.deleted(id).handles == fleet.stopped(id).handles,
        fleet.deleted(id).metrics == fleet.stopped(id).metrics,
        fleet.deleted(id).discovered == fleet.discovered,
        fleet.deleted(id).suppressed.contains(other) == (fleet.suppressed.contains(other) || (other
            == id && fleet.handles.contains_key(id))),
        !fleet.handles.contains_key(id) ==> fleet.deleted(id) == fleet,
{
}

/// Registering a broker first stops what runs under its id, then lifts its suppression
/// and its mark; once its tasks are registered it runs those and no others.
pub proof fn registration_replaces_what_ran<H>(
    fleet: FleetView<H>,
    id: Seq<char>,
    tasks: Seq<H>,
    other: Seq<char>,
)
    ensures
        fleet.handles.contains_key(id) ==> fleet.tasks_of(id) == fleet.handles[id],
        !fleet.handles.contains_key(id) ==> fleet.tasks_of(id).len() == 0,
        fleet.cleared_for(id).handles == fleet.stopped(id).handles,
        fleet.cleared_for(id).metrics == fleet.stopped(id).metrics,
        fleet.cleared_for(id).suppressed.contains(other) == (fleet.suppressed.contains(other)
            && other != id),
        fleet.cleared_for(id).discovered.contains(other) == (fleet.discovered.contains(other)
            && other != id),
        fleet.with_tasks(id, tasks).metrics == fleet.metrics,
        fleet.with_tasks(id, tasks).suppressed == fleet.suppressed,
        fleet.with_tasks(id, tasks).discovered == fleet.discovered,
        fleet.with_tasks(id, tasks).handles.contains_key(other) == (fleet.handles.contains_key(
            other,
        ) || other == id),
        fleet.with_tasks(id, tasks).handles[id] == tasks,
        other != id && fleet.handles.contains_key(other) ==> fleet.with_tasks(
            id,
            tasks,
        ).handles[other] == fleet.handles[other],
        fleet.spawned(id, tasks) == fleet.cleared_for(id).with_tasks(id, tasks),
{
}

/// What a fleet holds is what its four parts hold.
pub proof fn fleet_is_its_four_parts<H>(fleet: Fleet<H>)
    ensures
        fleet@.metrics == fleet.state@,
        fleet@.handles == fleet.registry@,
        fleet@.suppressed == fleet.suppressed@,
        fleet@.discovered == fleet.discovered@,
{
}

/// A fleet starts without a broker and without a mark.
pub proof fn fleet_starts_empty<H>(id: Seq<char>)
    ensures
        !FleetView::<H>::empty().metrics.contains_key(id),
        !FleetView::<H>::empty().handles.contains_key(id),
        !FleetView::<H>::empty().suppressed.contains(id),
        !FleetView::<H>::empty().discovered.contains(id),
{
}

} // verus!
