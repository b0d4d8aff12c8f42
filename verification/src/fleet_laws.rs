//! What holds of the registry and of discovery over several calls.

#[allow(unused_imports)]
use vstd::prelude::*;

#[allow(unused_imports)]
use crate::discovery::{broker_of, brokers_of, ContainerSummary};
#[allow(unused_imports)]
use crate::registry::FleetView;

verus! {

/// Registering a broker twice replaces its tasks and leaks none: the second call
/// hands the first call's tasks back to be aborted, and leaves the registry as if
/// only the second call had been made. What was scraped in between is forgotten.
pub proof fn registering_twice_replaces<H>(
    fleet: FleetView<H>,
    id: Seq<char>,
    first: Seq<H>,
    second: Seq<H>,
)
    ensures
        fleet.spawned(id, first).tasks_of(id) == first,
        fleet.spawned(id, first).spawned(id, second) == (FleetView {
            metrics: fleet.metrics.remove(id),
            ..fleet.spawned(id, second)
        }),
{
    let twice = fleet.spawned(id, first).spawned(id, second);
    let once = fleet.spawned(id, second);
    assert(twice.handles =~= once.handles);
    assert(twice.suppressed =~= once.suppressed);
    assert(twice.discovered =~= once.discovered);
    assert(twice.metrics =~= fleet.metrics.remove(id));
}

/// Registering a broker always wins over an earlier removal by hand: afterwards it
/// runs its tasks and is not suppressed.
pub proof fn registering_lifts_a_removal<H>(fleet: FleetView<H>, id: Seq<char>, tasks: Seq<H>)
    ensures
        fleet.deleted(id).spawned(id, tasks).tasks_of(id) == tasks,
        fleet.deleted(id).spawned(id, tasks).handles.contains_key(id),
        !fleet.deleted(id).spawned(id, tasks).suppressed.contains(id),
{
}

/// Stopping a broker undoes its registration: neither its tasks nor its metrics are
/// left, and a second stop finds nothing.
pub proof fn stopping_undoes_registering<H>(fleet: FleetView<H>, id: Seq<char>, tasks: Seq<H>)
    ensures
        fleet.spawned(id, tasks).stopped(id) == (FleetView {
            metrics: fleet.metrics.remove(id),
            handles: fleet.handles.remove(id),
            suppressed: fleet.suppressed.remove(id),
            discovered: fleet.discovered.remove(id),
        }),
        !fleet.spawned(id, tasks).stopped(id).handles.contains_key(id),
        fleet.stopped(id).stopped(id) == fleet.stopped(id),
        fleet.deleted(id).deleted(id) == fleet.deleted(id),
{
    let back = fleet.spawned(id, tasks).stopped(id);
    assert(back.metrics =~= fleet.metrics.remove(id));
    assert(back.handles =~= fleet.handles.remove(id));
    assert(back.suppressed =~= fleet.suppressed.remove(id));
    assert(back.discovered =~= fleet.discovered.remove(id));
}

/// Registering or stopping one broker leaves every other broker as it is.
pub proof fn other_brokers_are_untouched<H>(
    fleet: FleetView<H>,
    id: Seq<char>,
    tasks: Seq<H>,
    other: Seq<char>,
)
    requires
        other != id,
    ensures
        fleet.spawned(id, tasks).tasks_of(other) == fleet.tasks_of(other),
        fleet.deleted(id).tasks_of(other) == fleet.tasks_of(other),
        fleet.stopped(id).tasks_of(other) == fleet.tasks_of(other),
        fleet.spawned(id, tasks).handles.contains_key(other) == fleet.handles.contains_key(other),
        fleet.deleted(id).handles.contains_key(other) == fleet.handles.contains_key(other),
        fleet.stopped(id).handles.contains_key(other) == fleet.handles.contains_key(other),
        fleet.spawned(id, tasks).metrics.contains_key(other) == fleet.metrics.contains_key(other),
        fleet.deleted(id).metrics.contains_key(other) == fleet.metrics.contains_key(other),
        fleet.stopped(id).metrics.contains_key(other) == fleet.metrics.contains_key(other),
        fleet.metrics.contains_key(other) ==> {
            &&& fleet.spawned(id, tasks).metrics[other] == fleet.metrics[other]
            &&& fleet.deleted(id).metrics[other] == fleet.metrics[other]
            &&& fleet.stopped(id).metrics[other] == fleet.metrics[other]
        },
        fleet.spawned(id, tasks).suppressed.contains(other) == fleet.suppressed.contains(other),
        fleet.deleted(id).suppressed.contains(other) == fleet.suppressed.contains(other),
        fleet.stopped(id).suppressed == fleet.suppressed,
        fleet.spawned(id, tasks).discovered.contains(other) == fleet.discovered.contains(other),
        fleet.deleted(id).discovered == fleet.discovered,
        fleet.stopped(id).discovered == fleet.discovered,
{
}

/// Bringing up a newcomer only adds its tasks.
pub proof fn newcomer_only_adds_tasks<H>(
    fleet: FleetView<H>,
    found: Set<Seq<char>>,
    id: Seq<char>,
    tasks: Seq<H>,
)
    requires
        fleet.newcomers(found).contains(id),
    ensures
        fleet.reconciled(found).with_tasks(id, tasks) == fleet.reconciled(found).all_spawned(
            map![id => tasks],
        ),
{
    let ready = fleet.reconciled(found);
    assert(ready.suppressed.difference(map![id => tasks].dom()) =~= ready.suppressed);
    assert(ready.handles.insert(id, tasks) =~= ready.handles.union_prefer_right(
        map![id => tasks],
    ));
}

/// A removal by hand sticks while the label stays: a broker that is suppressed and
/// not running comes through a pass of discovery that finds it suppressed and not
/// running.
pub proof fn removal_sticks_while_labelled<H>(
    fleet: FleetView<H>,
    id: Seq<char>,
    found: Set<Seq<char>>,
    tasks: Map<Seq<char>, Seq<H>>,
)
    requires
        fleet.suppressed.contains(id),
        !fleet.handles.contains_key(id),
        found.contains(id),
        tasks.dom() == fleet.newcomers(found),
    ensures
        !fleet.newcomers(found).contains(id),
        fleet.reconciled(found).all_spawned(tasks).suppressed.contains(id),
        !fleet.reconciled(found).all_spawned(tasks).handles.contains_key(id),
{
}

/// Taking a registered broker off by hand puts it into the state that sticks.
pub proof fn removal_suppresses<H>(fleet: FleetView<H>, id: Seq<char>)
    requires
        fleet.handles.contains_key(id),
    ensures
        fleet.deleted(id).suppressed.contains(id),
        !fleet.deleted(id).handles.contains_key(id),
        !fleet.deleted(id).metrics.contains_key(id),
{
}

/// A removal by hand ends with the label: a pass that does not find the id lifts its
/// suppression, and a later pass that finds it again brings the broker up as new.
pub proof fn removal_ends_with_the_label<H>(
    fleet: FleetView<H>,
    id: Seq<char>,
    without: Set<Seq<char>>,
    tasks: Map<Seq<char>, Seq<H>>,
    again: Set<Seq<char>>,
)
    requires
        !fleet.handles.contains_key(id),
        !without.contains(id),
        tasks.dom() == fleet.newcomers(without),
        again.contains(id),
    ensures
        !fleet.reconciled(without).all_spawned(tasks).suppressed.contains(id),
        fleet.reconciled(without).all_spawned(tasks).newcomers(again).contains(id),
{
}

/// A registered broker that is not marked as found by discovery, such as one that was
/// registered by hand, is left alone by a pass that does not find it: its tasks and its
/// metrics stay, and it is not taken for one of discovery's own.
pub proof fn hand_registered_broker_is_left_alone<H>(
    fleet: FleetView<H>,
    id: Seq<char>,
    found: Set<Seq<char>>,
    tasks: Map<Seq<char>, Seq<H>>,
)
    requires
        fleet.handles.contains_key(id),
        !fleet.discovered.contains(id),
        !found.contains(id),
        tasks.dom() == fleet.newcomers(found),
    ensures
        !fleet.vanished(found).contains(id),
        !fleet.newcomers(found).contains(id),
        ({
            let after = fleet.reconciled(found).all_spawned(tasks);
            &&& after.handles.contains_key(id)
            &&& after.handles[id] == fleet.handles[id]
            &&& after.metrics.contains_key(id) == fleet.metrics.contains_key(id)
            &&& fleet.metrics.contains_key(id) ==> after.metrics[id] == fleet.metrics[id]
            &&& !after.discovered.contains(id)
        }),
{
}

/// What a pass of discovery does not find is not marked afterwards, whether it was
/// registered, taken off by a person or unknown before.
pub proof fn pass_forgets_what_it_does_not_find<H>(
    fleet: FleetView<H>,
    id: Seq<char>,
    found: Set<Seq<char>>,
    tasks: Map<Seq<char>, Seq<H>>,
)
    requires
        !found.contains(id),
    ensures
        !fleet.reconciled(found).all_spawned(tasks).discovered.contains(id),
{
}

/// A pass of discovery: the ids that it found, and the tasks of the brokers that it
/// brought up.
pub struct Pass<H> {
    pub found: Set<Seq<char>>,
    pub tasks: Map<Seq<char>, Seq<H>>,
}

/// The fleet after `passes`, one after the other.
pub open spec fn after_passes<H>(fleet: FleetView<H>, passes: Seq<Pass<H>>) -> FleetView<H>
    decreases passes.len(),
{
    if passes.len() == 0 {
        fleet
    } else {
        let pass = passes.last();
        after_passes(fleet, passes.drop_last()).reconciled(pass.found).all_spawned(pass.tasks)
    }
}

/// Each of `passes` brought up its newcomers and no others.
pub open spec fn passes_of<H>(fleet: FleetView<H>, passes: Seq<Pass<H>>) -> bool
    decreases passes.len(),
{
    passes.len() > 0 ==> {
        &&& passes_of(fleet, passes.drop_last())
        &&& passes.last().tasks.dom() == after_passes(fleet, passes.drop_last()).newcomers(
            passes.last().found,
        )
    }
}

/// A removal by hand sticks over any number of passes of discovery, as long as each
/// finds the label: the broker stays suppressed and off.
pub proof fn removal_sticks_over_passes<H>(
    fleet: FleetView<H>,
    id: Seq<char>,
    passes: Seq<Pass<H>>,
)
    requires
        fleet.handles.contains_key(id),
        passes_of(fleet.deleted(id), passes),
        forall|i: int| 0 <= i < passes.len() ==> (#[trigger] passes[i]).found.contains(id),
    ensures
        after_passes(fleet.deleted(id), passes).suppressed.contains(id),
        !after_passes(fleet.deleted(id), passes).handles.contains_key(id),
        !after_passes(fleet.deleted(id), passes).metrics.contains_key(id),
    decreases passes.len(),
{
    if passes.len() > 0 {
        let earlier = passes.drop_last();
        assert forall|i: int| 0 <= i < earlier.len() implies (
        #[trigger] earlier[i]).found.contains(id) by {
            assert(earlier[i] == passes[i]);
        }
        removal_sticks_over_passes(fleet, id, earlier);
        assert(passes[passes.len() - 1].found.contains(id));
        removal_sticks_while_labelled(
            after_passes(fleet.deleted(id), earlier),
            id,
            passes.last().found,
            passes.last().tasks,
        );
    }
}

/// A registered broker that is not marked is left alone by any number of passes that
/// do not find it.
pub proof fn unlabelled_broker_is_left_alone<H>(
    fleet: FleetView<H>,
    id: Seq<char>,
    passes: Seq<Pass<H>>,
)
    requires
        fleet.handles.contains_key(id),
        !fleet.discovered.contains(id),
        passes_of(fleet, passes),
        forall|i: int| 0 <= i < passes.len() ==> !(#[trigger] passes[i]).found.contains(id),
    ensures
        ({
            let after = after_passes(fleet, passes);
            &&& after.handles.contains_key(id)
            &&& after.handles[id] == fleet.handles[id]
            &&& after.metrics.contains_key(id) == fleet.metrics.contains_key(id)
            &&& fleet.metrics.contains_key(id) ==> after.metrics[id] == fleet.metrics[id]
            &&& !after.discovered.contains(id)
        }),
    decreases passes.len(),
{
    if passes.len() > 0 {
        let earlier = passes.drop_last();
        assert forall|i: int| 0 <= i < earlier.len() implies !(
        #[trigger] earlier[i]).found.contains(id) by {
            assert(earlier[i] == passes[i]);
        }
        unlabelled_broker_is_left_alone(fleet, id, earlier);
        assert(!passes[passes.len() - 1].found.contains(id));
        hand_registered_broker_is_left_alone(
            after_passes(fleet, earlier),
            id,
            passes.last().found,
            passes.last().tasks,
        );
    }
}

/// A broker that is registered by hand keeps its tasks over any number of passes that
/// do not find it labelled, whatever passes found before and whether or not a person
/// took it off in between.
pub proof fn hand_registration_is_left_alone<H>(
    fleet: FleetView<H>,
    id: Seq<char>,
    by_hand: Seq<H>,
    passes: Seq<Pass<H>>,
)
    requires
        passes_of(fleet.spawned(id, by_hand), passes),
        forall|i: int| 0 <= i < passes.len() ==> !(#[trigger] passes[i]).found.contains(id),
    ensures
        after_passes(fleet.spawned(id, by_hand), passes).handles.contains_key(id),
        after_passes(fleet.spawned(id, by_hand), passes).handles[id] == by_hand,
        !after_passes(fleet.spawned(id, by_hand), passes).discovered.contains(id),
{
    unlabelled_broker_is_left_alone(fleet.spawned(id, by_hand), id, passes);
}

/// A broker whose container vanished is taken off with its metrics and without being
/// suppressed, and comes up as new when it is found again.
pub proof fn vanished_broker_comes_back_as_new<H>(
    fleet: FleetView<H>,
    id: Seq<char>,
    without: Set<Seq<char>>,
    tasks: Map<Seq<char>, Seq<H>>,
    again: Set<Seq<char>>,
)
    requires
        fleet.handles.contains_key(id),
        fleet.discovered.contains(id),
        !without.contains(id),
        tasks.dom() == fleet.newcomers(without),
        again.contains(id),
    ensures
        fleet.vanished(without).contains(id),
        ({
            let after = fleet.reconciled(without).all_spawned(tasks);
            &&& !after.handles.contains_key(id)
            &&& !after.metrics.contains_key(id)
            &&& !after.suppressed.contains(id)
            &&& !after.discovered.contains(id)
            &&& after.newcomers(again).contains(id)
        }),
{
}

/// What a pass of discovery finds, it knows afterwards: every id that was found is
/// recorded, and each one runs its tasks or is suppressed.
pub proof fn found_brokers_are_accounted_for<H>(
    fleet: FleetView<H>,
    id: Seq<char>,
    found: Set<Seq<char>>,
    tasks: Map<Seq<char>, Seq<H>>,
)
    requires
        found.contains(id),
        tasks.dom() == fleet.newcomers(found),
    ensures
        ({
            let after = fleet.reconciled(found).all_spawned(tasks);
            &&& after.discovered.contains(id)
            &&& after.handles.contains_key(id) || after.suppressed.contains(id)
            &&& fleet.handles.contains_key(id) ==> after.handles[id] == fleet.handles[id]
        }),
{
    if fleet.handles.contains_key(id) {
        assert(!tasks.dom().contains(id));
    }
}

/// A pass of discovery settles the fleet: a second pass over the same containers
/// brings nothing up, takes nothing off and changes nothing.
pub proof fn second_pass_changes_nothing<H>(
    fleet: FleetView<H>,
    found: Set<Seq<char>>,
    tasks: Map<Seq<char>, Seq<H>>,
)
    requires
        tasks.dom() == fleet.newcomers(found),
    ensures
        ({
            let after = fleet.reconciled(found).all_spawned(tasks);
            &&& after.newcomers(found) == Set::<Seq<char>>::empty()
            &&& after.vanished(found) == Set::<Seq<char>>::empty()
            &&& after.reconciled(found) == after
        }),
{
    let after = fleet.reconciled(found).all_spawned(tasks);
    assert forall|id: Seq<char>| !#[trigger] after.newcomers(found).contains(id) by {
        if found.contains(id) && !after.suppressed.contains(id) {
            if !fleet.handles.contains_key(id) {
                assert(tasks.dom().contains(id));
            }
        }
    }
    assert(after.newcomers(found) =~= Set::<Seq<char>>::empty());
    assert(after.vanished(found) =~= Set::<Seq<char>>::empty());
    assert(after.reconciled(found) =~= after);
}

/// A container that is no broker's does not keep the others from being found: the
/// brokers are those of the list without it.
pub proof fn misconfigured_container_is_passed_over(
    before: Seq<ContainerSummary>,
    container: ContainerSummary,
    after: Seq<ContainerSummary>,
)
    requires
        broker_of(container) is None,
    ensures
        brokers_of(before.push(container) + after) == brokers_of(before + after),
    decreases after.len(),
{
    let long = before.push(container) + after;
    let short = before + after;
    if after.len() == 0 {
        assert(long.drop_last() =~= before);
        assert(short =~= before);
    } else {
        misconfigured_container_is_passed_over(before, container, after.drop_last());
        assert(long.drop_last() =~= before.push(container) + after.drop_last());
        assert(short.drop_last() =~= before + after.drop_last());
    }
}

/// An id is found exactly where some container's broker has it.
pub proof fn found_ids_are_the_containers_ids(containers: Seq<ContainerSummary>, id: Seq<char>)
    ensures
        brokers_of(containers).contains_key(id) == (exists|i: int|
            0 <= i < containers.len() && broker_of(#[trigger] containers[i]) is Some && broker_of(
                containers[i],
            )->0.id == id),
    decreases containers.len(),
{
    if containers.len() > 0 {
        let rest = containers.drop_last();
        found_ids_are_the_containers_ids(rest, id);
        if brokers_of(rest).contains_key(id) {
            let i = choose|i: int|
                0 <= i < rest.len() && broker_of(#[trigger] rest[i]) is Some && broker_of(
                    rest[i],
                )->0.id == id;
            assert(containers[i] == rest[i]);
        }
        if brokers_of(containers).contains_key(id) && !brokers_of(rest).contains_key(id) {
            assert(broker_of(containers[containers.len() - 1])->0.id == id);
        }
        if exists|i: int|
            0 <= i < containers.len() && broker_of(#[trigger] containers[i]) is Some && broker_of(
                containers[i],
            )->0.id == id {
            let i = choose|i: int|
                0 <= i < containers.len() && broker_of(#[trigger] containers[i]) is Some
                    && broker_of(containers[i])->0.id == id;
            if i < rest.len() {
                assert(rest[i] == containers[i]);
            }
        }
    }
}

} // verus!
