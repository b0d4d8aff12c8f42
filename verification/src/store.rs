//! The concurrent maps of the agent: the latest metrics of each broker, and the
//! time at which each alert last went off.
//!
//! Both are `DashMap`s. The library changes one only through a `&mut` reference,
//! so that what it holds stays put between two calls.

use dashmap::DashMap;
use vstd::prelude::*;

use crate::types::BrokerMetrics;

verus! {

/// `dashmap::DashMap`, as an opaque type.
#[verifier::external_type_specification]
#[verifier::external_body]
#[verifier::reject_recursive_types(K)]
#[verifier::reject_recursive_types(V)]
#[verifier::reject_recursive_types(S)]
pub struct ExDashMap<K, V, S>(dashmap::DashMap<K, V, S>);

/// What a map of metrics holds, by broker id.
pub uninterp spec fn metrics_held(table: DashMap<String, BrokerMetrics>) -> Map<
    Seq<char>,
    BrokerMetrics,
>;

/// What a map of firing times holds, by cooldown key.
pub uninterp spec fn times_held(table: DashMap<String, u128>) -> Map<Seq<char>, u128>;

/// `DashMap::new`: the map that it makes is empty.
#[verifier::external_body]
fn metrics_new() -> (created: DashMap<String, BrokerMetrics>)
    ensures
        (metrics_held(created) == Map::<Seq<char>, BrokerMetrics>::empty()),
{
    DashMap::new()
}

/// `DashMap::get`: a copy of the value under the key, or nothing where the key
/// is absent.
#[verifier::external_body]
fn metrics_get(table: &DashMap<String, BrokerMetrics>, id: &str) -> (found: Option<BrokerMetrics>)
    ensures
        found is Some == metrics_held(*table).contains_key(id@),
        found is Some ==> found->0 == metrics_held(*table)[id@],
{
    table.get(id).map(|entry| *entry.value())
}

/// `DashMap::insert`: the key holds the new value, the other keys what they held.
#[verifier::external_body]
fn metrics_insert(table: &mut DashMap<String, BrokerMetrics>, id: String, metrics: BrokerMetrics)
    ensures
        metrics_held(*final(table)) == metrics_held(*old(table)).insert(id@, metrics),
{
    table.insert(id, metrics);
}

/// `DashMap::remove`: the key is gone, the other keys hold what they held.
#[verifier::external_body]
fn metrics_remove(table: &mut DashMap<String, BrokerMetrics>, id: &str)
    ensures
        metrics_held(*final(table)) == metrics_held(*old(table)).remove(id@),
{
    table.remove(id);
}

/// `DashMap::iter`: it yields every entry once. The order depends on a hasher
/// that each process seeds, so nothing is said of it.
#[verifier::external_body]
fn metrics_iter(table: &DashMap<String, BrokerMetrics>) -> (entries: Vec<(String, BrokerMetrics)>)
    ensures
        lists_entries(entries@, metrics_held(*table)),
{
    table.iter().map(|entry| (entry.key().clone(), *entry.value())).collect()
}

/// `DashMap::new`: the map that it makes is empty.
#[verifier::external_body]
fn times_new() -> (created: DashMap<String, u128>)
    ensures
        (times_held(created) == Map::<Seq<char>, u128>::empty()),
{
    DashMap::new()
}

/// `DashMap::get`: a copy of the value under the key, or nothing where the key
/// is absent.
#[verifier::external_body]
fn times_get(table: &DashMap<String, u128>, key: &str) -> (found: Option<u128>)
    ensures
        found is Some == times_held(*table).contains_key(key@),
        found is Some ==> found->0 == times_held(*table)[key@],
{
    table.get(key).map(|entry| *entry.value())
}

/// `DashMap::insert`: the key holds the new value, the other keys what they held.
#[verifier::external_body]
fn times_insert(table: &mut DashMap<String, u128>, key: String, time: u128)
    ensures
        times_held(*final(table)) == times_held(*old(table)).insert(key@, time),
{
    table.insert(key, time);
}

/// `entries` lists the contents of `held`, each key once, in some order.
pub open spec fn lists_entries(
    entries: Seq<(String, BrokerMetrics)>,
    held: Map<Seq<char>, BrokerMetrics>,
) -> bool {
    &&& forall|i: int|
        0 <= i < entries.len() ==> held.contains_key((#[trigger] entries[i]).0@)
            && held[entries[i].0@] == entries[i].1
    &&& forall|i: int, j: int|
        0 <= i < j < entries.len() ==> (#[trigger] entries[i]).0@ != (#[trigger] entries[j]).0@
    &&& forall|id: Seq<char>| #[trigger]
        held.contains_key(id) ==> exists|i: int|
            0 <= i < entries.len() && (#[trigger] entries[i]).0@ == id
}

/// The metrics under `id`, or those of an unknown broker.
pub open spec fn metrics_or_unknown(
    held: Map<Seq<char>, BrokerMetrics>,
    id: Seq<char>,
) -> BrokerMetrics {
    if held.contains_key(id) {
        held[id]
    } else {
        BrokerMetrics::unknown()
    }
}

/// The latest metrics of each broker, by broker id.
pub struct SharedState {
    table: DashMap<String, BrokerMetrics>,
}

impl View for SharedState {
    type V = Map<Seq<char>, BrokerMetrics>;

    closed spec fn view(&self) -> Map<Seq<char>, BrokerMetrics> {
        metrics_held(self.table)
    }
}

impl SharedState {
    /// A state without any broker.
    pub fn new() -> (r: Self)
        ensures
            r@ == Map::<Seq<char>, BrokerMetrics>::empty(),
    {
        SharedState { table: metrics_new() }
    }

    /// The metrics of the broker `id`.
    pub fn get(&self, id: &str) -> (r: Option<BrokerMetrics>)
        ensures
            r == (if self@.contains_key(id@) {
                Some(self@[id@])
            } else {
                None
            }),
    {
        metrics_get(&self.table, id)
    }

    /// The metrics of the broker `id`, all absent where it has none yet.
    pub fn get_or_default(&self, id: &str) -> (r: BrokerMetrics)
        ensures
            r == metrics_or_unknown(self@, id@),
    {
        match self.get(id) {
            Some(metrics) => metrics,
            None => BrokerMetrics::default(),
        }
    }

    /// Sets the metrics of the broker `id`.
    pub fn insert(&mut self, id: &str, metrics: BrokerMetrics)
        ensures
            final(self)@ == old(self)@.insert(id@, metrics),
    {
        metrics_insert(&mut self.table, id.to_owned(), metrics);
    }

    /// Forgets the broker `id`.
    pub fn remove(&mut self, id: &str)
        ensures
            final(self)@ == old(self)@.remove(id@),
    {
        metrics_remove(&mut self.table, id);
    }

    /// Every broker with its metrics, in no particular order.
    pub fn entries(&self) -> (r: Vec<(String, BrokerMetrics)>)
        ensures
            lists_entries(r@, self@),
    {
        metrics_iter(&self.table)
    }
}

/// The time, in nanoseconds on the agent's own clock, at which the alert of each
/// broker and metric last went off.
pub struct CooldownState {
    table: DashMap<String, u128>,
}

impl View for CooldownState {
    type V = Map<Seq<char>, u128>;

    closed spec fn view(&self) -> Map<Seq<char>, u128> {
        times_held(self.table)
    }
}

impl CooldownState {
    /// A state in which no alert has gone off.
    pub fn new() -> (r: Self)
        ensures
            r@ == Map::<Seq<char>, u128>::empty(),
    {
        CooldownState { table: times_new() }
    }

    /// The time under `key`.
    pub fn get(&self, key: &str) -> (r: Option<u128>)
        ensures
            r == (if self@.contains_key(key@) {
                Some(self@[key@])
            } else {
                None
            }),
    {
        times_get(&self.table, key)
    }

    /// Sets the time under `key`.
    pub fn insert(&mut self, key: String, time: u128)
        ensures
            final(self)@ == old(self)@.insert(key@, time),
    {
        times_insert(&mut self.table, key, time);
    }
}

} // verus!
