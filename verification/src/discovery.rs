//! Finding brokers by their container labels, and keeping the registry in step
//! with what is found.

use vstd::prelude::*;

use crate::config::BrokerConfig;
#[allow(unused_imports)]
use crate::config::BrokerConfigView;
use crate::ids::IdSet;
use crate::registry::{
    is_suppressed, list_brokers, spawn_broker, stop_broker_no_suppress, suppressed_ids, unsuppress,
    BrokerRuntime, Fleet, SpawnOrder,
};
#[allow(unused_imports)]
use crate::registry::FleetView;
use crate::text::{same_text, trim_leading};
#[allow(unused_imports)]
use crate::text::without_leading;

verus! {

/// The label that puts a container under monitoring, when it is `true`.
pub const MONITOR_LABEL: &'static str = "progressbox.monitor";

/// The label that gives the id of a container's broker.
pub const BROKER_ID_LABEL: &'static str = "progressbox.broker_id";

/// The port on which a broker listens inside its container.
pub const MQTT_PORT: u16 = 1883;

/// The host under which containers are reached: they share the agent's network.
pub const MQTT_HOST: &'static str = "localhost";

/// The transport protocol of a published port.
#[derive(Clone, Copy, Debug, PartialEq, Eq, Structural)]
pub enum Protocol {
    Tcp,
    Udp,
    Sctp,
    /// The protocol is not given, which means TCP.
    Unspecified,
}

/// A port of a container, with the host port that it is published under.
#[derive(Clone, Copy, Debug, PartialEq, Eq)]
pub struct PortBinding {
    pub private_port: u16,
    pub public_port: Option<u16>,
    pub protocol: Protocol,
}

/// What discovery reads of a running container.
#[derive(Debug)]
pub struct ContainerSummary {
    pub labels: Option<Vec<(String, String)>>,
    pub names: Option<Vec<String>>,
    pub ports: Option<Vec<PortBinding>>,
}

/// The first value under `key`.
pub open spec fn label_value(labels: Seq<(String, String)>, key: Seq<char>) -> Option<Seq<char>>
    decreases labels.len(),
{
    if labels.len() == 0 {
        None
    } else if labels.first().0@ == key {
        Some(labels.first().1@)
    } else {
        label_value(labels.drop_first(), key)
    }
}

/// A port on which the broker of a container listens.
pub open spec fn serves_mqtt(port: PortBinding) -> bool {
    &&& port.private_port == MQTT_PORT
    &&& port.protocol == Protocol::Tcp || port.protocol == Protocol::Unspecified
}

/// The host port of the first port that serves MQTT, where that port is published.
pub open spec fn mqtt_host_port(ports: Seq<PortBinding>) -> Option<u16>
    decreases ports.len(),
{
    if ports.len() == 0 {
        None
    } else if serves_mqtt(ports.first()) {
        ports.first().public_port
    } else {
        mqtt_host_port(ports.drop_first())
    }
}

/// The broker of a container: none where its id label, its name or its published
/// MQTT port is missing.
pub open spec fn broker_of(container: ContainerSummary) -> Option<BrokerConfigView> {
    match (container.labels, container.names, container.ports) {
        (Some(labels), Some(names), Some(ports)) => {
            match (label_value(labels@, BROKER_ID_LABEL@), mqtt_host_port(ports@)) {
                (Some(id), Some(port)) => {
                    if names@.len() > 0 {
                        Some(
                            BrokerConfigView {
                                id,
                                mqtt_host: MQTT_HOST@,
                                mqtt_port: port,
                                container_name: without_leading(names@.first()@, '/'),
                            },
                        )
                    } else {
                        None
                    }
                },
                _ => None,
            }
        },
        _ => None,
    }
}

/// The brokers of a list of containers, by id. Where two containers claim one id,
/// the later one has it.
pub open spec fn brokers_of(containers: Seq<ContainerSummary>) -> Map<Seq<char>, BrokerConfigView>
    decreases containers.len(),
{
    if containers.len() == 0 {
        Map::empty()
    } else {
        match broker_of(containers.last()) {
            Some(broker) => brokers_of(containers.drop_last()).insert(broker.id, broker),
            None => brokers_of(containers.drop_last()),
        }
    }
}

/// `list` holds the brokers of `found`, each once, in some order.
pub open spec fn lists_brokers(
    list: Seq<BrokerConfig>,
    found: Map<Seq<char>, BrokerConfigView>,
) -> bool {
    &&& forall|i: int|
        0 <= i < list.len() ==> found.contains_key((#[trigger] list[i]).id@) && found[list[i].id@]
            == list[i]@
    &&& forall|i: int, j: int|
        0 <= i < j < list.len() ==> (#[trigger] list[i]).id@ != (#[trigger] list[j]).id@
    &&& forall|id: Seq<char>| #[trigger]
        found.contains_key(id) ==> exists|i: int|
            0 <= i < list.len() && (#[trigger] list[i]).id@ == id
}

/// The text by which running containers are filtered: the monitor label set to
/// `true`.
pub fn monitor_filter() -> (r: String)
    ensures
        r@ == MONITOR_LABEL@ + "=true"@,
{
    let mut filter = MONITOR_LABEL.to_owned();
    filter.append("=true");
    filter
}

fn find_label<'a>(labels: &'a Vec<(String, String)>, key: &str) -> (r: Option<&'a String>)
    ensures
        match r {
            Some(value) => label_value(labels@, key@) == Some(value@),
            None => label_value(labels@, key@) is None,
        },
{
    let n: usize = labels.len();
    let mut i: usize = 0;
    assert(labels@.skip(0) =~= labels@);
    while i < n
        invariant
            n == labels@.len(),
            i <= n,
            label_value(labels@, key@) == label_value(labels@.skip(i as int), key@),
        decreases n - i,
    {
        assert(labels@.skip(i as int).first() == labels@[i as int]);
        assert(labels@.skip(i as int).drop_first() =~= labels@.skip(i as int + 1));
        if same_text(labels[i].0.as_str(), key) {
            return Some(&labels[i].1);
        }
        i += 1;
    }
    None
}

fn find_mqtt_port(ports: &Vec<PortBinding>) -> (r: Option<u16>)
    ensures
        r == mqtt_host_port(ports@),
{
    let n: usize = ports.len();
    let mut i: usize = 0;
    assert(ports@.skip(0) =~= ports@);
    while i < n
        invariant
            n == ports@.len(),
            i <= n,
            mqtt_host_port(ports@) == mqtt_host_port(ports@.skip(i as int)),
        decreases n - i,
    {
        assert(ports@.skip(i as int).first() == ports@[i as int]);
        assert(ports@.skip(i as int).drop_first() =~= ports@.skip(i as int + 1));
        if ports[i].private_port == MQTT_PORT && (ports[i].protocol == Protocol::Tcp
            || ports[i].protocol == Protocol::Unspecified) {
            return ports[i].public_port;
        }
        i += 1;
    }
    None
}

/// Makes a broker out of a labelled container. A container that lacks a label, a
/// name or the published port is passed over, so that it does not keep the others
/// from being found.
pub fn broker_config_from_container(container: &ContainerSummary) -> (r: Option<BrokerConfig>)
    ensures
        match r {
            Some(broker) => broker_of(*container) == Some(broker@),
            None => broker_of(*container) is None,
        },
{
    let labels = match &container.labels {
        Some(labels) => labels,
        None => {
            return None;
        },
    };
    let id = match find_label(labels, BROKER_ID_LABEL) {
        Some(id) => id.clone(),
        None => {
            return None;
        },
    };
    let names = match &container.names {
        Some(names) => names,
        None => {
            return None;
        },
    };
    if names.len() == 0 {
        return None;
    }
    let container_name = trim_leading(names[0].as_str(), '/').to_owned();
    let ports = match &container.ports {
        Some(ports) => ports,
        None => {
            return None;
        },
    };
    let mqtt_port = match find_mqtt_port(ports) {
        Some(port) => port,
        None => {
            return None;
        },
    };
    Some(BrokerConfig { id, mqtt_host: MQTT_HOST.to_owned(), mqtt_port, container_name })
}

fn position_of_broker(list: &Vec<BrokerConfig>, id: &str) -> (r: Option<usize>)
    ensures
        match r {
            Some(i) => i < list@.len() && list@[i as int].id@ == id@,
            None => forall|i: int| 0 <= i < list@.len() ==> (#[trigger] list@[i]).id@ != id@,
        },
{
    let n: usize = list.len();
    let mut i: usize = 0;
    while i < n
        invariant
            n == list@.len(),
            i <= n,
            forall|k: int| 0 <= k < i ==> (#[trigger] list@[k]).id@ != id@,
        decreases n - i,
    {
        if same_text(list[i].id.as_str(), id) {
            return Some(i);
        }
        i += 1;
    }
    None
}

fn is_listed(list: &Vec<BrokerConfig>, id: &str) -> (r: bool)
    ensures
        r == (exists|i: int| 0 <= i < list@.len() && (#[trigger] list@[i]).id@ == id@),
{
    position_of_broker(list, id).is_some()
}

proof fn lemma_replace_keeps_listing(
    list: Seq<BrokerConfig>,
    found: Map<Seq<char>, BrokerConfigView>,
    broker: BrokerConfig,
    place: Option<int>,
)
    requires
        lists_brokers(list, found),
        match place {
            Some(i) => 0 <= i < list.len() && list[i].id@ == broker.id@,
            None => forall|i: int| 0 <= i < list.len() ==> (#[trigger] list[i]).id@ != broker.id@,
        },
    ensures
        lists_brokers(
            (match place {
                Some(i) => list.remove(i),
                None => list,
            }).push(broker),
            found.insert(broker.id@, broker@),
        ),
{
    let kept = match place {
        Some(i) => list.remove(i),
        None => list,
    };
    let next = kept.push(broker);
    let grown = found.insert(broker.id@, broker@);
    let origin = |k: int|
        match place {
            Some(i) => if k < i {
                k
            } else {
                k + 1
            },
            None => k,
        };
    assert forall|k: int| 0 <= k < kept.len() implies #[trigger] kept[k] == list[origin(k)]
        && kept[k].id@ != broker.id@ by {
        if let Some(i) = place {
            let o = origin(k);
            assert(kept[k] == list[o]);
            if o < i {
                assert(list[o].id@ != list[i].id@);
            } else {
                assert(list[i].id@ != list[o].id@);
            }
        }
    }
    assert forall|k: int| 0 <= k < next.len() implies grown.contains_key((#[trigger] next[k]).id@)
        && grown[next[k].id@] == next[k]@ by {
        if k < kept.len() {
            assert(next[k] == kept[k]);
            let o = origin(k);
            assert(found.contains_key(list[o].id@));
        }
    }
    assert forall|i: int, j: int| 0 <= i < j < next.len() implies (#[trigger] next[i]).id@ != (
    #[trigger] next[j]).id@ by {
        assert(next[i] == kept[i]);
        if j < kept.len() {
            assert(next[j] == kept[j]);
            assert(origin(i) < origin(j));
            assert(list[origin(i)].id@ != list[origin(j)].id@);
        }
    }
    assert forall|id: Seq<char>| #[trigger] grown.contains_key(id) implies exists|i: int|
        0 <= i < next.len() && (#[trigger] next[i]).id@ == id by {
        if id == broker.id@ {
            assert(next[kept.len() as int].id@ == id);
        } else {
            assert(found.contains_key(id));
            let o = choose|o: int| 0 <= o < list.len() && (#[trigger] list[o]).id@ == id;
            let k = match place {
                Some(i) => if o < i {
                    o
                } else {
                    o - 1
                },
                None => o,
            };
            assert(kept[k] == list[o]);
            assert(next[k].id@ == id);
        }
    }
}

/// The brokers of the labelled containers, each id once.
pub fn discovered_brokers(containers: &Vec<ContainerSummary>) -> (r: Vec<BrokerConfig>)
    ensures
        lists_brokers(r@, brokers_of(containers@)),
{
    let mut list: Vec<BrokerConfig> = Vec::new();
    let n: usize = containers.len();
    let mut i: usize = 0;
    while i < n
        invariant
            n == containers@.len(),
            i <= n,
            lists_brokers(list@, brokers_of(containers@.take(i as int))),
        decreases n - i,
    {
        assert(containers@.take(i as int + 1).drop_last() =~= containers@.take(i as int));
        assert(containers@.take(i as int + 1).last() == containers@[i as int]);
        match broker_config_from_container(&containers[i]) {
            Some(broker) => {
                let place = position_of_broker(&list, broker.id.as_str());
                proof {
                    lemma_replace_keeps_listing(
                        list@,
                        brokers_of(containers@.take(i as int)),
                        broker,
                        match place {
                            Some(k) => Some(k as int),
                            None => None,
                        },
                    );
                }
                if let Some(k) = place {
                    list.remove(k);
                }
                list.push(broker);
            },
            None => {},
        }
        i += 1;
    }
    assert(containers@.take(n as int) =~= containers@);
    list
}

/// Says whether `id` is marked as found by discovery.
pub fn was_previously_discovered(discovered: &IdSet, id: &str) -> (r: bool)
    ensures
        r == discovered@.contains(id@),
{
    discovered.contains(id)
}

/// Marks `id` as found by discovery.
pub fn mark_discovered(discovered: &mut IdSet, id: &str)
    ensures
        final(discovered)@ == old(discovered)@.insert(id@),
{
    discovered.insert(id);
}

/// Takes the mark of discovery off `id`.
pub fn unmark_discovered(discovered: &mut IdSet, id: &str)
    ensures
        final(discovered)@ == old(discovered)@.remove(id@),
{
    discovered.remove(id);
}

impl<H> FleetView<H> {
    /// The registered brokers that vanished: the pass before found them labelled, this
    /// one does not, and nobody registered them in between.
    pub open spec fn vanished(self, found: Set<Seq<char>>) -> Set<Seq<char>> {
        self.handles.dom().intersect(self.discovered).difference(found)
    }

    /// The brokers that discovery brings up: found, not registered, and not taken off
    /// by a person.
    pub open spec fn newcomers(self, found: Set<Seq<char>>) -> Set<Seq<char>> {
        found.difference(self.handles.dom()).difference(self.suppressed)
    }

    /// The fleet after a pass of discovery that found the ids `found`, before the
    /// tasks of the newcomers are registered.
    pub open spec fn reconciled(self, found: Set<Seq<char>>) -> FleetView<H> {
        FleetView {
            metrics: self.metrics.remove_keys(self.vanished(found)),
            handles: self.handles.remove_keys(self.vanished(found)),
            suppressed: self.suppressed.intersect(found),
            discovered: found,
        }
    }

    /// The fleet after every id of `tasks` was registered with its tasks.
    pub open spec fn all_spawned(self, tasks: Map<Seq<char>, Seq<H>>) -> FleetView<H> {
        FleetView {
            handles: self.handles.union_prefer_right(tasks),
            suppressed: self.suppressed.difference(tasks.dom()),
            ..self
        }
    }
}

/// A broker that was taken off because it vanished, with the handles to abort.
#[derive(Debug, PartialEq, Eq)]
pub struct StoppedBroker<H> {
    pub id: String,
    pub abort: Vec<H>,
}

/// What a pass of discovery asks for.
#[derive(Debug, PartialEq, Eq)]
pub struct Reconciliation<H> {
    /// The brokers whose tasks are to be brought up.
    pub spawn: Vec<SpawnOrder<H>>,
    /// The brokers whose tasks are to be aborted.
    pub stopped: Vec<StoppedBroker<H>>,
}

/// `orders` brings up the brokers of `ids`, each once, as they stand in `found`.
pub open spec fn orders_for<H>(
    orders: Seq<SpawnOrder<H>>,
    ids: Set<Seq<char>>,
    found: Map<Seq<char>, BrokerConfigView>,
    runtime: BrokerRuntime,
) -> bool {
    &&& forall|i: int|
        0 <= i < orders.len() ==> {
            let order = #[trigger] orders[i];
            &&& ids.contains(order.broker.id@)
            &&& order.broker@ == found[order.broker.id@]
            &&& order.abort@.len() == 0
            &&& order.mqtt_interval == runtime.mqtt_interval
            &&& order.docker_interval == runtime.docker_interval
        }
    &&& forall|i: int, j: int|
        0 <= i < j < orders.len() ==> (#[trigger] orders[i]).broker.id@ != (
        #[trigger] orders[j]).broker.id@
    &&& forall|id: Seq<char>| #[trigger]
        ids.contains(id) ==> exists|i: int|
            0 <= i < orders.len() && (#[trigger] orders[i]).broker.id@ == id
}

/// `stopped` takes off the brokers of `ids`, each once, with the handles that they
/// have in `handles`.
pub open spec fn stops<H>(
    stopped: Seq<StoppedBroker<H>>,
    ids: Set<Seq<char>>,
    handles: Map<Seq<char>, Seq<H>>,
) -> bool {
    &&& forall|i: int|
        0 <= i < stopped.len() ==> ids.contains((#[trigger] stopped[i]).id@) && stopped[i].abort@
            == handles[stopped[i].id@]
    &&& forall|i: int, j: int|
        0 <= i < j < stopped.len() ==> (#[trigger] stopped[i]).id@ != (#[trigger] stopped[j]).id@
    &&& forall|id: Seq<char>| #[trigger]
        ids.contains(id) ==> exists|i: int|
            0 <= i < stopped.len() && (#[trigger] stopped[i]).id@ == id
}

spec fn first_ids(list: Seq<BrokerConfig>, k: int) -> Set<Seq<char>> {
    Set::new(|id: Seq<char>| exists|i: int| 0 <= i < k && (#[trigger] list[i]).id@ == id)
}

spec fn first_texts(list: Seq<String>, k: int) -> Set<Seq<char>> {
    Set::new(|id: Seq<char>| exists|i: int| 0 <= i < k && (#[trigger] list[i])@ == id)
}

/// Marks what was found and orders the tasks of the newcomers.
fn bring_up<H>(
    list: &Vec<BrokerConfig>,
    runtime: &BrokerRuntime,
    fleet: &mut Fleet<H>,
    Ghost(found): Ghost<Map<Seq<char>, BrokerConfigView>>,
) -> (r: Vec<SpawnOrder<H>>)
    requires
        lists_brokers(list@, found),
    ensures
        final(fleet)@ == (FleetView {
            discovered: old(fleet)@.discovered.union(found.dom()),
            ..old(fleet)@
        }),
        orders_for(r@, old(fleet)@.newcomers(found.dom()), found, *runtime),
{
    let ghost start = fleet@;
    let mut orders: Vec<SpawnOrder<H>> = Vec::new();
    let n: usize = list.len();
    let mut i: usize = 0;
    assert(start.discovered.union(first_ids(list@, 0)) =~= start.discovered);
    while i < n
        invariant
            n == list@.len(),
            i <= n,
            lists_brokers(list@, found),
            fleet@ == (FleetView {
                discovered: start.discovered.union(first_ids(list@, i as int)),
                ..start
            }),
            orders_for(
                orders@,
                start.newcomers(found.dom()).intersect(first_ids(list@, i as int)),
                found,
                *runtime,
            ),
        decreases n - i,
    {
        let broker = &list[i];
        let ghost seen = first_ids(list@, i as int);
        let ghost wanted = start.newcomers(found.dom());
        let ghost ordered = orders@;
        assert(found.contains_key(broker.id@));
        assert(first_ids(list@, i as int + 1) =~= seen.insert(broker.id@)) by {
            assert forall|id: Seq<char>|
                first_ids(list@, i as int + 1).contains(id) == seen.insert(broker.id@).contains(
                    id,
                ) by {
                if first_ids(list@, i as int + 1).contains(id) && id != broker.id@ {
                    let k = choose|k: int| 0 <= k < i + 1 && (#[trigger] list@[k]).id@ == id;
                    assert(k < i);
                }
                assert(list@[i as int].id@ == broker.id@);
            }
        }
        assert(!seen.contains(broker.id@)) by {
            if seen.contains(broker.id@) {
                let k = choose|k: int| 0 <= k < i && (#[trigger] list@[k]).id@ == broker.id@;
                assert(list@[k].id@ != list@[i as int].id@);
            }
        }
        if !fleet.registry.contains(broker.id.as_str()) && !is_suppressed(
            &fleet.suppressed,
            broker.id.as_str(),
        ) {
            let ghost before = fleet@;
            let order = spawn_broker(broker.clone(), runtime, fleet);
            assert(fleet@ =~= (FleetView {
                discovered: before.discovered.remove(broker.id@),
                ..before
            }));
            orders.push(order);
            proof {
                let ids = wanted.intersect(seen.insert(broker.id@));
                assert(wanted.contains(broker.id@));
                assert forall|id: Seq<char>| #[trigger] ids.contains(id) implies exists|k: int|
                    0 <= k < orders@.len() && (#[trigger] orders@[k]).broker.id@ == id by {
                    if id == broker.id@ {
                        assert(orders@[ordered.len() as int].broker.id@ == id);
                    } else {
                        assert(wanted.intersect(seen).contains(id));
                        let k = choose|k: int|
                            0 <= k < ordered.len() && (#[trigger] ordered[k]).broker.id@ == id;
                        assert(orders@[k].broker.id@ == id);
                    }
                }
                assert forall|a: int, b: int| 0 <= a < b < orders@.len() implies (
                #[trigger] orders@[a]).broker.id@ != (#[trigger] orders@[b]).broker.id@ by {
                    assert(orders@[a] == ordered[a]);
                    assert(seen.contains(ordered[a].broker.id@));
                    if b < ordered.len() {
                        assert(orders@[b] == ordered[b]);
                    }
                }
                assert forall|a: int| 0 <= a < orders@.len() implies ({
                    let order = #[trigger] orders@[a];
                    &&& ids.contains(order.broker.id@)
                    &&& order.broker@ == found[order.broker.id@]
                    &&& order.abort@.len() == 0
                    &&& order.mqtt_interval == runtime.mqtt_interval
                    &&& order.docker_interval == runtime.docker_interval
                }) by {
                    if a < ordered.len() {
                        assert(orders@[a] == ordered[a]);
                        assert(wanted.intersect(seen).contains(ordered[a].broker.id@));
                    }
                }
            }
        } else {
            assert(wanted.intersect(seen.insert(broker.id@)) =~= wanted.intersect(seen));
        }
        mark_discovered(&mut fleet.discovered, broker.id.as_str());
        assert(fleet@.discovered =~= start.discovered.union(seen.insert(broker.id@)));
        i += 1;
    }
    proof {
        lemma_listing_covers(list@, found);
        assert(start.newcomers(found.dom()).intersect(found.dom()) =~= start.newcomers(
            found.dom(),
        ));
    }
    orders
}

proof fn lemma_listing_covers(
    list: Seq<BrokerConfig>,
    found: Map<Seq<char>, BrokerConfigView>,
)
    requires
        lists_brokers(list, found),
    ensures
        first_ids(list, list.len() as int) == found.dom(),
{
    assert(first_ids(list, list.len() as int) =~= found.dom()) by {
        assert forall|id: Seq<char>|
            first_ids(list, list.len() as int).contains(id) == found.dom().contains(id) by {
            if found.contains_key(id) {
                let k = choose|k: int| 0 <= k < list.len() && (#[trigger] list[k]).id@ == id;
                assert(list[k].id@ == id);
            }
            if first_ids(list, list.len() as int).contains(id) {
                let k = choose|k: int| 0 <= k < list.len() && (#[trigger] list[k]).id@ == id;
                assert(found.contains_key(list[k].id@));
            }
        }
    }
}

proof fn lemma_listed_means_found(
    list: Seq<BrokerConfig>,
    found: Map<Seq<char>, BrokerConfigView>,
    id: Seq<char>,
)
    requires
        lists_brokers(list, found),
    ensures
        (exists|i: int| 0 <= i < list.len() && (#[trigger] list[i]).id@ == id)
            == found.contains_key(id),
{
    lemma_listing_covers(list, found);
    assert(first_ids(list, list.len() as int).contains(id) == found.dom().contains(id));
}

proof fn lemma_next_text(list: Seq<String>, k: int)
    requires
        0 <= k < list.len(),
        crate::ids::texts(list).no_duplicates(),
    ensures
        first_texts(list, k + 1) == first_texts(list, k).insert(list[k]@),
        !first_texts(list, k).contains(list[k]@),
{
    let seen = first_texts(list, k);
    let id = list[k]@;
    assert(first_texts(list, k + 1) =~= seen.insert(id)) by {
        assert forall|x: Seq<char>|
            first_texts(list, k + 1).contains(x) == seen.insert(id).contains(x) by {
            if first_texts(list, k + 1).contains(x) && x != id {
                let j = choose|j: int| 0 <= j < k + 1 && (#[trigger] list[j])@ == x;
                assert(j < k);
            }
            assert(list[k]@ == id);
        }
    }
    if seen.contains(id) {
        let j = choose|j: int| 0 <= j < k && (#[trigger] list[j])@ == id;
        assert(crate::ids::texts(list)[j] == crate::ids::texts(list)[k]);
    }
}

proof fn lemma_all_texts(list: Seq<String>)
    ensures
        first_texts(list, list.len() as int) == crate::ids::texts(list).to_set(),
{
    let names = crate::ids::texts(list);
    assert(first_texts(list, list.len() as int) =~= names.to_set()) by {
        assert forall|x: Seq<char>|
            first_texts(list, list.len() as int).contains(x) == names.to_set().contains(x) by {
            if names.contains(x) {
                let j = choose|j: int| 0 <= j < names.len() && names[j] == x;
                assert(list[j]@ == x);
            }
            if first_texts(list, list.len() as int).contains(x) {
                let j = choose|j: int| 0 <= j < list.len() && (#[trigger] list[j])@ == x;
                assert(names[j] == x);
            }
        }
    }
}

/// Takes the vanished brokers off.
fn take_off_vanished<H>(
    list: &Vec<BrokerConfig>,
    fleet: &mut Fleet<H>,
    Ghost(found): Ghost<Map<Seq<char>, BrokerConfigView>>,
) -> (r: Vec<StoppedBroker<H>>)
    requires
        lists_brokers(list@, found),
    ensures
        final(fleet)@ == (FleetView {
            metrics: old(fleet)@.metrics.remove_keys(old(fleet)@.vanished(found.dom())),
            handles: old(fleet)@.handles.remove_keys(old(fleet)@.vanished(found.dom())),
            discovered: old(fleet)@.discovered.difference(old(fleet)@.vanished(found.dom())),
            ..old(fleet)@
        }),
        stops(r@, old(fleet)@.vanished(found.dom()), old(fleet)@.handles),
{
    let ghost start = fleet@;
    let ghost gone = start.vanished(found.dom());
    let registered = list_brokers(&fleet.registry);
    let mut stopped: Vec<StoppedBroker<H>> = Vec::new();
    let n: usize = registered.len();
    let mut i: usize = 0;
    assert(gone.intersect(first_texts(registered@, 0)) =~= Set::<Seq<char>>::empty());
    assert(fleet@.metrics =~= start.metrics.remove_keys(Set::<Seq<char>>::empty()));
    assert(fleet@.handles =~= start.handles.remove_keys(Set::<Seq<char>>::empty()));
    assert(fleet@.discovered =~= start.discovered.difference(Set::<Seq<char>>::empty()));
    while i < n
        invariant
            n == registered@.len(),
            i <= n,
            lists_brokers(list@, found),
            gone == start.vanished(found.dom()),
            crate::ids::texts(registered@).no_duplicates(),
            crate::ids::texts(registered@).to_set() == start.handles.dom(),
            fleet@ == (FleetView {
                metrics: start.metrics.remove_keys(
                    gone.intersect(first_texts(registered@, i as int)),
                ),
                handles: start.handles.remove_keys(
                    gone.intersect(first_texts(registered@, i as int)),
                ),
                discovered: start.discovered.difference(
                    gone.intersect(first_texts(registered@, i as int)),
                ),
                ..start
            }),
            stops(stopped@, gone.intersect(first_texts(registered@, i as int)), start.handles),
        decreases n - i,
    {
        let id = registered[i].as_str();
        let ghost seen = first_texts(registered@, i as int);
        let ghost done = gone.intersect(seen);
        let ghost listed = stopped@;
        proof {
            lemma_next_text(registered@, i as int);
            lemma_listed_means_found(list@, found, id@);
            assert(crate::ids::texts(registered@)[i as int] == id@);
            assert(crate::ids::texts(registered@).to_set().contains(id@));
            assert(start.handles.contains_key(id@));
            assert(!done.contains(id@));
            assert(fleet@.handles.contains_key(id@));
            assert(fleet@.discovered.contains(id@) == start.discovered.contains(id@));
        }
        if !is_listed(list, id) && was_previously_discovered(&fleet.discovered, id) {
            let ghost before = fleet@;
            match stop_broker_no_suppress(id, fleet) {
                Some(abort) => {
                    stopped.push(StoppedBroker { id: registered[i].clone(), abort });
                },
                None => {},
            }
            unmark_discovered(&mut fleet.discovered, id);
            proof {
                assert(gone.contains(id@));
                let now = gone.intersect(seen.insert(id@));
                assert(now =~= done.insert(id@));
                assert(fleet@.metrics =~= start.metrics.remove_keys(now));
                assert(fleet@.handles =~= start.handles.remove_keys(now));
                assert(fleet@.discovered =~= start.discovered.difference(now));
                assert(stopped@ == listed.push(stopped@.last()));
                assert(stopped@.last().abort@ == start.handles[id@]);
                assert forall|x: Seq<char>| #[trigger] now.contains(x) implies exists|k: int|
                    0 <= k < stopped@.len() && (#[trigger] stopped@[k]).id@ == x by {
                    if x == id@ {
                        assert(stopped@[listed.len() as int].id@ == x);
                    } else {
                        assert(done.contains(x));
                        let k = choose|k: int|
                            0 <= k < listed.len() && (#[trigger] listed[k]).id@ == x;
                        assert(stopped@[k].id@ == x);
                    }
                }
                assert forall|a: int| 0 <= a < stopped@.len() implies now.contains(
                    (#[trigger] stopped@[a]).id@,
                ) && stopped@[a].abort@ == start.handles[stopped@[a].id@] by {
                    if a < listed.len() {
                        assert(stopped@[a] == listed[a]);
                        assert(done.contains(listed[a].id@));
                    }
                }
                assert forall|a: int, b: int| 0 <= a < b < stopped@.len() implies (
                #[trigger] stopped@[a]).id@ != (#[trigger] stopped@[b]).id@ by {
                    assert(stopped@[a] == listed[a]);
                    assert(done.contains(listed[a].id@));
                    if b < listed.len() {
                        assert(stopped@[b] == listed[b]);
                    }
                }
            }
        } else {
            assert(!gone.contains(id@));
            assert(gone.intersect(seen.insert(id@)) =~= done);
        }
        i += 1;
    }
    proof {
        lemma_all_texts(registered@);
        assert(gone.intersect(start.handles.dom()) =~= gone);
    }
    stopped
}

/// Lifts the suppression of the ids that are not labelled any more.
fn lift_suppressions<H>(
    list: &Vec<BrokerConfig>,
    fleet: &mut Fleet<H>,
    Ghost(found): Ghost<Map<Seq<char>, BrokerConfigView>>,
)
    requires
        lists_brokers(list@, found),
    ensures
        final(fleet)@ == (FleetView {
            suppressed: old(fleet)@.suppressed.intersect(found.dom()),
            ..old(fleet)@
        }),
{
    let ghost start = fleet@;
    let ids = suppressed_ids(&fleet.suppressed);
    let n: usize = ids.len();
    let mut i: usize = 0;
    let ghost lifted = start.suppressed.difference(found.dom());
    assert(start.suppressed.difference(lifted.intersect(first_texts(ids@, 0)))
        =~= start.suppressed);
    while i < n
        invariant
            n == ids@.len(),
            i <= n,
            lists_brokers(list@, found),
            crate::ids::texts(ids@).no_duplicates(),
            crate::ids::texts(ids@).to_set() == start.suppressed,
            lifted == start.suppressed.difference(found.dom()),
            fleet@ == (FleetView {
                suppressed: start.suppressed.difference(
                    lifted.intersect(first_texts(ids@, i as int)),
                ),
                ..start
            }),
        decreases n - i,
    {
        let id = ids[i].as_str();
        let ghost seen = first_texts(ids@, i as int);
        proof {
            lemma_next_text(ids@, i as int);
            lemma_listed_means_found(list@, found, id@);
            assert(crate::ids::texts(ids@)[i as int] == id@);
            assert(crate::ids::texts(ids@).to_set().contains(id@));
        }
        if !is_listed(list, id) {
            unsuppress(&mut fleet.suppressed, id);
            assert(fleet@.suppressed =~= start.suppressed.difference(
                lifted.intersect(seen.insert(id@)),
            ));
        } else {
            assert(lifted.intersect(seen.insert(id@)) =~= lifted.intersect(seen));
        }
        i += 1;
    }
    proof {
        lemma_all_texts(ids@);
        assert(start.suppressed.difference(lifted.intersect(start.suppressed))
            =~= start.suppressed.intersect(found.dom()));
    }
}

/// Forgets the ids that are not labelled any more, registered or not, so that a
/// broker that is later registered by hand under one of them is left alone.
fn forget_unlabelled<H>(
    list: &Vec<BrokerConfig>,
    fleet: &mut Fleet<H>,
    Ghost(found): Ghost<Map<Seq<char>, BrokerConfigView>>,
)
    requires
        lists_brokers(list@, found),
    ensures
        final(fleet)@ == (FleetView {
            discovered: old(fleet)@.discovered.intersect(found.dom()),
            ..old(fleet)@
        }),
{
    let ghost start = fleet@;
    let ids = fleet.discovered.to_vec();
    let n: usize = ids.len();
    let mut i: usize = 0;
    let ghost unlabelled = start.discovered.difference(found.dom());
    assert(start.discovered.difference(unlabelled.intersect(first_texts(ids@, 0)))
        =~= start.discovered);
    while i < n
        invariant
            n == ids@.len(),
            i <= n,
            lists_brokers(list@, found),
            crate::ids::texts(ids@).no_duplicates(),
            crate::ids::texts(ids@).to_set() == start.discovered,
            unlabelled == start.discovered.difference(found.dom()),
            fleet@ == (FleetView {
                discovered: start.discovered.difference(
                    unlabelled.intersect(first_texts(ids@, i as int)),
                ),
                ..start
            }),
        decreases n - i,
    {
        let id = ids[i].as_str();
        let ghost seen = first_texts(ids@, i as int);
        proof {
            lemma_next_text(ids@, i as int);
            lemma_listed_means_found(list@, found, id@);
            assert(crate::ids::texts(ids@)[i as int] == id@);
            assert(crate::ids::texts(ids@).to_set().contains(id@));
        }
        if !is_listed(list, id) {
            unmark_discovered(&mut fleet.discovered, id);
            assert(fleet@.discovered =~= start.discovered.difference(
                unlabelled.intersect(seen.insert(id@)),
            ));
        } else {
            assert(unlabelled.intersect(seen.insert(id@)) =~= unlabelled.intersect(seen));
        }
        i += 1;
    }
    proof {
        lemma_all_texts(ids@);
        assert(start.discovered.difference(unlabelled.intersect(start.discovered))
            =~= start.discovered.intersect(found.dom()));
    }
}

/// One pass of discovery over the labelled containers that are running: brings up
/// the brokers that are new, takes off those that vanished since the pass before, and
/// lifts the suppression of those whose label is gone. Afterwards exactly the ids that
/// were found count as discovered. A broker that was registered by hand and does not
/// carry the label is left alone.
pub fn reconcile<H>(
    containers: &Vec<ContainerSummary>,
    runtime: &BrokerRuntime,
    fleet: &mut Fleet<H>,
) -> (r: Reconciliation<H>)
    ensures
        final(fleet)@ == old(fleet)@.reconciled(brokers_of(containers@).dom()),
        orders_for(
            r.spawn@,
            old(fleet)@.newcomers(brokers_of(containers@).dom()),
            brokers_of(containers@),
            *runtime,
        ),
        stops(
            r.stopped@,
            old(fleet)@.vanished(brokers_of(containers@).dom()),
            old(fleet)@.handles,
        ),
{
    let ghost start = fleet@;
    let list = discovered_brokers(containers);
    let ghost found = brokers_of(containers@);
    let spawn = bring_up(&list, runtime, fleet, Ghost(found));
    assert(fleet@.vanished(found.dom()) =~= start.vanished(found.dom()));
    let stopped = take_off_vanished(&list, fleet, Ghost(found));
    forget_unlabelled(&list, fleet, Ghost(found));
    lift_suppressions(&list, fleet, Ghost(found));
    assert(fleet@.discovered =~= found.dom());
    Reconciliation { spawn, stopped }
}

} // verus!
