//! The registry of monitored brokers: which brokers have running tasks, and
//! which ones a person has taken off.
//!
//! A task handle is whatever the caller's runtime gives for a spawned task. The
//! library keeps handles and hands back those that are to be aborted; it never
//! looks into one.

use vstd::prelude::*;

use crate::config::BrokerConfig;
use crate::ids::{copied, position_of, IdSet};
use crate::store::SharedState;
#[allow(unused_imports)]
use crate::types::BrokerMetrics;

verus! {

/// The scrape intervals, in seconds, of a broker's two tasks.
#[derive(Clone, Copy, Debug)]
pub struct BrokerRuntime {
    pub mqtt_interval: u64,
    pub docker_interval: u64,
}

/// The registered brokers, each with the handles of its tasks.
pub struct BrokerRegistry<H> {
    ids: Vec<String>,
    handles: Vec<Vec<H>>,
}

spec fn handles_by_id<H>(ids: Seq<Seq<char>>, handles: Seq<Vec<H>>) -> Map<Seq<char>, Seq<H>> {
    Map::new(|id: Seq<char>| ids.contains(id), |id: Seq<char>| handles[ids.index_of(id)]@)
}

impl<H> View for BrokerRegistry<H> {
    type V = Map<Seq<char>, Seq<H>>;

    closed spec fn view(&self) -> Map<Seq<char>, Seq<H>> {
        handles_by_id(crate::ids::texts(self.ids@), self.handles@)
    }
}

proof fn lemma_place<A>(s: Seq<A>, i: int)
    requires
        s.no_duplicates(),
        0 <= i < s.len(),
    ensures
        s.contains(s[i]),
        s.index_of(s[i]) == i,
{
}

impl<H> BrokerRegistry<H> {
    /// Every id has its own list of handles and stands in the registry once.
    #[verifier::type_invariant]
    spec fn paired_without_repeats(self) -> bool {
        &&& self.ids@.len() == self.handles@.len()
        &&& crate::ids::texts(self.ids@).no_duplicates()
    }

    /// Says whether the broker `id` is registered.
    pub fn contains(&self, id: &str) -> (r: bool)
        ensures
            r == self@.contains_key(id@),
    {
        let found = position_of(&self.ids, id);
        proof {
            if let Some(i) = found {
                assert(crate::ids::texts(self.ids@)[i as int] == id@);
            }
        }
        found.is_some()
    }

    /// Takes the broker `id` out, and gives back its handles if it was there.
    pub fn remove(&mut self, id: &str) -> (r: Option<Vec<H>>)
        ensures
            final(self)@ == old(self)@.remove(id@),
            r is Some == old(self)@.contains_key(id@),
            r is Some ==> r->0@ == old(self)@[id@],
    {
        proof {
            use_type_invariant(&*self);
        }
        let ghost names = crate::ids::texts(self.ids@);
        let ghost held = self.handles@;
        match position_of(&self.ids, id) {
            Some(i) => {
                let mut emptied: BrokerRegistry<H> = new_registry();
                std::mem::swap(&mut emptied, self);
                let BrokerRegistry { mut ids, mut handles } = emptied;
                ids.remove(i);
                let stopped = handles.remove(i);
                proof {
                    assert(names[i as int] == id@);
                    lemma_place(names, i as int);
                    let rest = crate::ids::texts(ids@);
                    assert(rest =~= names.remove(i as int));
                    let after = handles_by_id(rest, handles@);
                    let before = handles_by_id(names, held);
                    assert forall|x: Seq<char>| #[trigger]
                        rest.contains(x) == (names.contains(x) && x != id@) by {
                        if names.contains(x) && x != id@ {
                            let k = names.index_of(x);
                            let moved = if k < i { k } else { k - 1 };
                            assert(rest[moved] == x);
                        }
                        if rest.contains(x) {
                            let k = rest.index_of(x);
                            let kept = if k < i { k } else { k + 1 };
                            assert(names[kept] == x);
                            assert(names[kept] != names[i as int]);
                        }
                    }
                    assert forall|x: Seq<char>| rest.contains(x) implies after[x] == before[x] by {
                        let k = names.index_of(x);
                        let moved = if k < i { k } else { k - 1 };
                        assert(names.contains(x) && x != id@);
                        assert(rest[moved] == x);
                        lemma_place(rest, moved);
                    }
                    assert(after =~= before.remove(id@));
                }
                *self = BrokerRegistry { ids, handles };
                Some(stopped)
            },
            None => {
                assert(self@.remove(id@) =~= self@);
                None
            },
        }
    }

    /// Registers the broker `id` with the handles of its tasks, in place of those
    /// that it may have had.
    pub fn insert(&mut self, id: &str, tasks: Vec<H>)
        ensures
            final(self)@ == old(self)@.insert(id@, tasks@),
    {
        let ghost start = self@;
        let _displaced = self.remove(id);
        proof {
            use_type_invariant(&*self);
        }
        let ghost names = crate::ids::texts(self.ids@);
        let ghost held = self.handles@;
        let mut emptied: BrokerRegistry<H> = new_registry();
        std::mem::swap(&mut emptied, self);
        let BrokerRegistry { mut ids, mut handles } = emptied;
        assert(!names.contains(id@)) by {
            assert(!handles_by_id(names, held).contains_key(id@));
        }
        ids.push(id.to_owned());
        handles.push(tasks);
        proof {
            let grown = crate::ids::texts(ids@);
            assert(grown =~= names.push(id@));
            assert forall|i: int, j: int|
                0 <= i < grown.len() && 0 <= j < grown.len() && i != j implies grown[i]
                != grown[j] by {
                if i < names.len() {
                    assert(names.contains(names[i]));
                }
                if j < names.len() {
                    assert(names.contains(names[j]));
                }
            }
            let after = handles_by_id(grown, handles@);
            let before = handles_by_id(names, held);
            lemma_place(grown, names.len() as int);
            assert forall|x: Seq<char>| #[trigger]
                grown.contains(x) == (names.contains(x) || x == id@) by {
                if names.contains(x) {
                    assert(grown[names.index_of(x)] == x);
                }
            }
            assert forall|x: Seq<char>| names.contains(x) implies after[x] == before[x] by {
                let k = names.index_of(x);
                assert(grown[k] == x);
                lemma_place(grown, k);
                assert(grown.contains(x));
            }
            assert(after =~= before.insert(id@, tasks@));
            assert(start.remove(id@).insert(id@, tasks@) =~= start.insert(id@, tasks@));
        }
        *self = BrokerRegistry { ids, handles };
    }
}

/// A registry without any broker.
pub fn new_registry<H>() -> (r: BrokerRegistry<H>)
    ensures
        r@ == Map::<Seq<char>, Seq<H>>::empty(),
{
    let ids: Vec<String> = Vec::new();
    let handles: Vec<Vec<H>> = Vec::new();
    assert(handles_by_id(crate::ids::texts(ids@), handles@) =~= Map::<Seq<char>, Seq<H>>::empty());
    BrokerRegistry { ids, handles }
}

/// The ids of the registered brokers, each once, in no particular order.
pub fn list_brokers<H>(registry: &BrokerRegistry<H>) -> (r: Vec<String>)
    ensures
        crate::ids::texts(r@).to_set() == registry@.dom(),
        crate::ids::texts(r@).no_duplicates(),
{
    proof {
        use_type_invariant(registry);
    }
    let r = copied(&registry.ids);
    assert(crate::ids::texts(r@).to_set() =~= registry@.dom());
    r
}

/// All that the agent knows of its brokers.
pub struct Fleet<H> {
    /// The latest metrics of each broker.
    pub state: SharedState,
    /// The brokers with running tasks.
    pub registry: BrokerRegistry<H>,
    /// The ids that a person took off.
    pub suppressed: IdSet,
    /// The ids that the last pass of discovery found labelled, but for those that were
    /// registered since.
    pub discovered: IdSet,
}

/// What a [`Fleet`] holds.
#[verifier::ext_equal]
pub struct FleetView<H> {
    pub metrics: Map<Seq<char>, BrokerMetrics>,
    pub handles: Map<Seq<char>, Seq<H>>,
    pub suppressed: Set<Seq<char>>,
    pub discovered: Set<Seq<char>>,
}

impl<H> View for Fleet<H> {
    type V = FleetView<H>;

    open spec fn view(&self) -> FleetView<H> {
        FleetView {
            metrics: self.state@,
            handles: self.registry@,
            suppressed: self.suppressed@,
            discovered: self.discovered@,
        }
    }
}

impl<H> FleetView<H> {
    /// A fleet without any broker.
    pub open spec fn empty() -> FleetView<H> {
        FleetView {
            metrics: Map::empty(),
            handles: Map::empty(),
            suppressed: Set::empty(),
            discovered: Set::empty(),
        }
    }

    /// The fleet after the tasks of `id` are stopped: a registered broker is taken
    /// off together with its metrics, an unregistered one leaves the fleet as it is.
    pub open spec fn stopped(self, id: Seq<char>) -> FleetView<H> {
        if self.handles.contains_key(id) {
            FleetView { metrics: self.metrics.remove(id), handles: self.handles.remove(id), ..self }
        } else {
            self
        }
    }

    /// The fleet after a person took `id` off: a broker that was registered stays
    /// suppressed.
    pub open spec fn deleted(self, id: Seq<char>) -> FleetView<H> {
        if self.handles.contains_key(id) {
            FleetView { suppressed: self.suppressed.insert(id), ..self.stopped(id) }
        } else {
            self
        }
    }

    /// The fleet made ready for new tasks of `id`: the old ones are stopped, and the
    /// id is neither suppressed nor taken for one of discovery's.
    pub open spec fn cleared_for(self, id: Seq<char>) -> FleetView<H> {
        FleetView {
            suppressed: self.suppressed.remove(id),
            discovered: self.discovered.remove(id),
            ..self.stopped(id)
        }
    }

    /// The fleet with the tasks of `id` registered.
    pub open spec fn with_tasks(self, id: Seq<char>, tasks: Seq<H>) -> FleetView<H> {
        FleetView { handles: self.handles.insert(id, tasks), ..self }
    }

    /// The fleet after `id` was registered with new tasks.
    pub open spec fn spawned(self, id: Seq<char>, tasks: Seq<H>) -> FleetView<H> {
        self.cleared_for(id).with_tasks(id, tasks)
    }

    /// The handles of `id`: none where it is not registered.
    pub open spec fn tasks_of(self, id: Seq<char>) -> Seq<H> {
        if self.handles.contains_key(id) {
            self.handles[id]
        } else {
            Seq::empty()
        }
    }
}

impl<H> Fleet<H> {
    /// A fleet without any broker.
    pub fn new() -> (r: Self)
        ensures
            r@ == FleetView::<H>::empty(),
    {
        Fleet {
            state: SharedState::new(),
            registry: new_registry(),
            suppressed: IdSet::new(),
            discovered: IdSet::new(),
        }
    }
}

/// What has to be done to bring a broker's tasks up: abort the handles of
/// `abort`, then spawn the MQTT and the container task of `broker`, then hand
/// their handles to [`register_tasks`].
#[derive(Debug, PartialEq, Eq)]
pub struct SpawnOrder<H> {
    pub abort: Vec<H>,
    pub broker: BrokerConfig,
    pub mqtt_interval: u64,
    pub docker_interval: u64,
}

/// Makes the fleet ready for the tasks of `broker` and says what to abort and what
/// to spawn. A broker that is registered already is replaced: its handles come
/// back to be aborted. Registering a broker clears its suppression and its discovery
/// mark: a broker that a person registers is not discovery's to take off until a pass
/// finds it labelled.
pub fn spawn_broker<H>(broker: BrokerConfig, runtime: &BrokerRuntime, fleet: &mut Fleet<H>) -> (r:
    SpawnOrder<H>)
    ensures
        final(fleet)@ == old(fleet)@.cleared_for(broker.id@),
        r.abort@ == old(fleet)@.tasks_of(broker.id@),
        r.broker == broker,
        r.mqtt_interval == runtime.mqtt_interval,
        r.docker_interval == runtime.docker_interval,
{
    let abort = match stop_broker_internal(broker.id.as_str(), fleet) {
        Some(tasks) => tasks,
        None => Vec::new(),
    };
    assert(abort@ =~= old(fleet)@.tasks_of(broker.id@));
    unsuppress(&mut fleet.suppressed, broker.id.as_str());
    fleet.discovered.remove(broker.id.as_str());
    SpawnOrder {
        abort,
        broker,
        mqtt_interval: runtime.mqtt_interval,
        docker_interval: runtime.docker_interval,
    }
}

/// Registers the two tasks of the broker `broker_id` once they are spawned.
pub fn register_tasks<H>(broker_id: &str, mqtt_task: H, docker_task: H, fleet: &mut Fleet<H>)
    ensures
        final(fleet)@ == old(fleet)@.with_tasks(broker_id@, seq![mqtt_task, docker_task]),
{
    let mut tasks: Vec<H> = Vec::new();
    tasks.push(mqtt_task);
    tasks.push(docker_task);
    assert(tasks@ =~= seq![mqtt_task, docker_task]);
    fleet.registry.insert(broker_id, tasks);
}

/// Takes a broker off at a person's request and forgets its metrics, so that they
/// are no longer shown. Gives back the handles to abort, or nothing where no such
/// broker is registered. The id stays suppressed: discovery does not bring it back.
pub fn stop_broker<H>(broker_id: &str, fleet: &mut Fleet<H>) -> (r: Option<Vec<H>>)
    ensures
        final(fleet)@ == old(fleet)@.deleted(broker_id@),
        r is Some == old(fleet)@.handles.contains_key(broker_id@),
        r is Some ==> r->0@ == old(fleet)@.handles[broker_id@],
{
    let stopped = stop_broker_internal(broker_id, fleet);
    if stopped.is_some() {
        suppress(&mut fleet.suppressed, broker_id);
    }
    stopped
}

/// As [`stop_broker`], for a broker that vanished: its id is not suppressed.
pub fn stop_broker_no_suppress<H>(broker_id: &str, fleet: &mut Fleet<H>) -> (r: Option<Vec<H>>)
    ensures
        final(fleet)@ == old(fleet)@.stopped(broker_id@),
        r is Some == old(fleet)@.handles.contains_key(broker_id@),
        r is Some ==> r->0@ == old(fleet)@.handles[broker_id@],
{
    stop_broker_internal(broker_id, fleet)
}

fn stop_broker_internal<H>(broker_id: &str, fleet: &mut Fleet<H>) -> (r: Option<Vec<H>>)
    ensures
        final(fleet)@ == old(fleet)@.stopped(broker_id@),
        r is Some == old(fleet)@.handles.contains_key(broker_id@),
        r is Some ==> r->0@ == old(fleet)@.handles[broker_id@],
{
    let tasks = fleet.registry.remove(broker_id);
    match tasks {
        Some(tasks) => {
            fleet.state.remove(broker_id);
            Some(tasks)
        },
        None => {
            assert(fleet@ =~= old(fleet)@);
            None
        },
    }
}

/// Marks `id` as taken off by a person.
pub fn suppress(suppressed: &mut IdSet, id: &str)
    ensures
        final(suppressed)@ == old(suppressed)@.insert(id@),
{
    suppressed.insert(id);
}

/// Lifts the mark from `id`.
pub fn unsuppress(suppressed: &mut IdSet, id: &str)
    ensures
        final(suppressed)@ == old(suppressed)@.remove(id@),
{
    suppressed.remove(id);
}

/// Says whether a person has taken `id` off.
pub fn is_suppressed(suppressed: &IdSet, id: &str) -> (r: bool)
    ensures
        r == suppressed@.contains(id@),
{
    suppressed.contains(id)
}

/// The ids that a person has taken off, each once, in no particular order.
pub fn suppressed_ids(suppressed: &IdSet) -> (r: Vec<String>)
    ensures
        crate::ids::texts(r@).to_set() == suppressed@,
        crate::ids::texts(r@).no_duplicates(),
{
    suppressed.to_vec()
}

} // verus!
