//! Alert evaluation: which rules have a reading to compare, when an alert goes
//! off, and how long it then stays quiet.
//!
//! Comparing a reading with a threshold is floating-point work and is done by the
//! caller, who passes its outcome in.

use vstd::prelude::*;

use crate::clock::{unix_secs, Stopwatch};
#[allow(unused_imports)]
use crate::reading::{clock_gave, clock_gave_since};
use crate::config::AlertRule;
#[allow(unused_imports)]
use crate::config::valid_rule;
#[allow(unused_imports)]
use crate::metric::{condition_holds, figure, metric_named, metric_names_have_no_colon, reading_named};
use crate::metric::{breached, metric_value, Comparison};
#[allow(unused_imports)]
use crate::ids::texts;
#[allow(unused_imports)]
use crate::store::lists_entries;
use crate::store::{CooldownState, SharedState};
use crate::types::{BrokerMetrics, FiredAlert, Reading};

verus! {

/// The nanoseconds of a second.
pub const NANOS_PER_SEC: u128 = 1_000_000_000;

/// A reading of a broker that the rule at place `rule` of the list is to be held
/// against.
#[derive(Debug, PartialEq, Eq)]
pub struct Check {
    pub broker_id: String,
    pub rule: usize,
    pub value: Reading,
}

/// The checks of one broker for the first `k` rules: one for each rule whose metric
/// has a reading, in the order of the rules.
pub open spec fn checks_of_broker(
    entry: (String, BrokerMetrics),
    rules: Seq<AlertRule>,
    k: nat,
) -> Seq<Check>
    decreases k,
{
    if k == 0 {
        Seq::empty()
    } else {
        let earlier = checks_of_broker(entry, rules, (k - 1) as nat);
        match reading_named(entry.1, rules[k - 1].metric@) {
            Some(value) => earlier.push(
                Check { broker_id: entry.0, rule: (k - 1) as usize, value },
            ),
            None => earlier,
        }
    }
}

/// The checks of the first `n` brokers, broker by broker.
pub open spec fn checks_of(
    entries: Seq<(String, BrokerMetrics)>,
    rules: Seq<AlertRule>,
    n: nat,
) -> Seq<Check>
    decreases n,
{
    if n == 0 {
        Seq::empty()
    } else {
        checks_of(entries, rules, (n - 1) as nat) + checks_of_broker(
            entries[n - 1],
            rules,
            rules.len(),
        )
    }
}

/// Lists what there is to compare: for each broker in turn, each rule whose metric
/// has a reading. A metric that no scrape has brought yet is passed over.
pub fn pending_checks(entries: &Vec<(String, BrokerMetrics)>, rules: &Vec<AlertRule>) -> (r: Vec<
    Check,
>)
    ensures
        r@ == checks_of(entries@, rules@, entries@.len()),
{
    let mut checks: Vec<Check> = Vec::new();
    let n: usize = entries.len();
    let m: usize = rules.len();
    let mut i: usize = 0;
    while i < n
        invariant
            n == entries@.len(),
            m == rules@.len(),
            i <= n,
            checks@ == checks_of(entries@, rules@, i as nat),
        decreases n - i,
    {
        let ghost earlier = checks@;
        let mut k: usize = 0;
        assert(checks@ =~= earlier + checks_of_broker(entries@[i as int], rules@, 0));
        while k < m
            invariant
                n == entries@.len(),
                m == rules@.len(),
                i < n,
                k <= m,
                checks@ == earlier + checks_of_broker(entries@[i as int], rules@, k as nat),
            decreases m - k,
        {
            match metric_value(&entries[i].1, rules[k].metric.as_str()) {
                Some(value) => {
                    checks.push(Check { broker_id: entries[i].0.clone(), rule: k, value });
                },
                None => {},
            }
            assert(checks@ =~= earlier + checks_of_broker(
                entries@[i as int],
                rules@,
                (k + 1) as nat,
            ));
            k += 1;
        }
        i += 1;
    }
    checks
}

/// The brokers of the state, each once, in no particular order: a tick takes them one
/// after the other.
pub fn brokers_in_turn(state: &SharedState) -> (r: Vec<String>)
    ensures
        texts(r@).to_set() == state@.dom(),
        texts(r@).no_duplicates(),
{
    let entries = state.entries();
    let mut ids: Vec<String> = Vec::new();
    let n: usize = entries.len();
    let mut i: usize = 0;
    while i < n
        invariant
            n == entries@.len(),
            i <= n,
            ids@.len() == i,
            forall|k: int| 0 <= k < i ==> (#[trigger] ids@[k])@ == entries@[k].0@,
        decreases n - i,
    {
        ids.push(entries[i].0.clone());
        i += 1;
    }
    proof {
        let names = texts(ids@);
        assert forall|x: int, y: int| 0 <= x < names.len() && 0 <= y < names.len() && x
            != y implies names[x] != names[y] by {
            assert(entries@[x].0@ != entries@[y].0@);
        }
        assert forall|id: Seq<char>| #[trigger]
            names.contains(id) == state@.contains_key(id) by {
            if names.contains(id) {
                let k = names.index_of(id);
                assert(state@.contains_key(entries@[k].0@));
            }
            if state@.contains_key(id) {
                let k = choose|k: int| 0 <= k < entries@.len() && (#[trigger] entries@[k]).0@ == id;
                assert(names[k] == id);
            }
        }
        assert(names.to_set() =~= state@.dom());
    }
    ids
}

/// What the state holds of a broker when its turn comes: its metrics, or nothing where
/// it has been taken off.
pub open spec fn turn_of(
    broker_id: String,
    held: Map<Seq<char>, BrokerMetrics>,
) -> Seq<(String, BrokerMetrics)> {
    if held.contains_key(broker_id@) {
        seq![(broker_id, held[broker_id@])]
    } else {
        Seq::empty()
    }
}

/// Lists what there is to compare of one broker when its turn comes: each rule whose
/// metric has a reading by now.
pub fn due_checks(state: &SharedState, broker_id: &String, rules: &Vec<AlertRule>) -> (r: Vec<
    Check,
>)
    ensures
        r@ == checks_of(
            turn_of(*broker_id, state@),
            rules@,
            turn_of(*broker_id, state@).len(),
        ),
{
    let mut turn: Vec<(String, BrokerMetrics)> = Vec::new();
    match state.get(broker_id.as_str()) {
        Some(metrics) => {
            turn.push((broker_id.clone(), metrics));
        },
        None => {},
    }
    assert(turn@ =~= turn_of(*broker_id, state@));
    pending_checks(&turn, rules)
}

/// The key under which the alerts of a broker's metric stay quiet together.
pub open spec fn cooldown_key_text(broker_id: Seq<char>, metric: Seq<char>) -> Seq<char> {
    broker_id + ":"@ + metric
}

/// Writes the key under which the alerts of a broker's metric stay quiet together.
pub fn cooldown_key(broker_id: &str, metric: &str) -> (r: String)
    ensures
        r@ == cooldown_key_text(broker_id@, metric@),
{
    let mut key = broker_id.to_owned();
    key.append(":");
    key.append(metric);
    key
}

/// The whole seconds from `last` to `now`; none where the clock went back.
pub open spec fn secs_since(last: u128, now: u128) -> nat {
    if now < last {
        0
    } else {
        ((now - last) / NANOS_PER_SEC as int) as nat
    }
}

/// Every alert that went off, and when each broker's metric last set one off.
pub struct AlertBook {
    next_id: u64,
    cooldowns: CooldownState,
    alerts: Vec<FiredAlert>,
    clock: Stopwatch,
}

/// What an [`AlertBook`] holds.
#[verifier::ext_equal]
pub struct AlertBookView {
    /// The id of the next alert.
    pub next_id: u64,
    /// The time of the last alert under each cooldown key.
    pub cooldowns: Map<Seq<char>, u128>,
    /// The alerts, oldest first.
    pub alerts: Seq<FiredAlert>,
}

impl View for AlertBook {
    type V = AlertBookView;

    closed spec fn view(&self) -> AlertBookView {
        AlertBookView {
            next_id: self.next_id,
            cooldowns: self.cooldowns@,
            alerts: self.alerts@,
        }
    }
}

impl AlertBookView {
    /// The book before any alert.
    pub open spec fn empty() -> AlertBookView {
        AlertBookView { next_id: 0, cooldowns: Map::empty(), alerts: Seq::empty() }
    }

    /// Alerts are numbered from zero in the order in which they went off.
    pub open spec fn numbered(self) -> bool {
        &&& self.next_id == self.alerts.len()
        &&& forall|i: int| 0 <= i < self.alerts.len() ==> (#[trigger] self.alerts[i]).id == i
    }

    /// No alert has been acknowledged.
    pub open spec fn unacknowledged(self) -> bool {
        forall|i: int| 0 <= i < self.alerts.len() ==> !(#[trigger] self.alerts[i]).acknowledged
    }

    /// The alerts under `key` are still quiet at `now`, for a rule that keeps them
    /// quiet for `cooldown_secs`.
    pub open spec fn quiet(self, key: Seq<char>, cooldown_secs: u64, now: u128) -> bool {
        self.cooldowns.contains_key(key) && secs_since(self.cooldowns[key], now) < cooldown_secs
    }

    /// The rule's alert goes off: its condition holds and it is not kept quiet.
    pub open spec fn goes_off(
        self,
        check: Check,
        rule: AlertRule,
        comparison: Comparison,
        now: u128,
    ) -> bool {
        &&& condition_holds(rule.operator@, comparison)
        &&& !self.quiet(cooldown_key_text(check.broker_id@, rule.metric@), rule.cooldown_secs, now)
    }

    /// The alert that goes off.
    pub open spec fn alert_for(self, check: Check, rule: AlertRule, fired_at: i64) -> FiredAlert {
        FiredAlert {
            id: self.next_id,
            broker_id: check.broker_id,
            metric: rule.metric,
            operator: rule.operator,
            value: check.value,
            threshold: rule.threshold,
            fired_at,
            acknowledged: false,
        }
    }

    /// The book after the rule was evaluated at `now`, a Unix time of `fired_at`.
    pub open spec fn evaluated(
        self,
        check: Check,
        rule: AlertRule,
        comparison: Comparison,
        now: u128,
        fired_at: i64,
    ) -> AlertBookView {
        if self.goes_off(check, rule, comparison, now) {
            AlertBookView {
                next_id: (self.next_id + 1) as u64,
                cooldowns: self.cooldowns.insert(
                    cooldown_key_text(check.broker_id@, rule.metric@),
                    now,
                ),
                alerts: self.alerts.push(self.alert_for(check, rule, fired_at)),
            }
        } else {
            self
        }
    }
}

impl AlertBook {
    /// The moment from which the book's own clock counts.
    pub closed spec fn started_at(self) -> std::time::Instant {
        self.clock.started_at()
    }

    /// A book without any alert.
    pub fn new() -> (r: Self)
        ensures
            r@ == AlertBookView::empty(),
            r@.numbered(),
            r@.unacknowledged(),
    {
        AlertBook {
            next_id: 0,
            cooldowns: CooldownState::new(),
            alerts: Vec::new(),
            clock: Stopwatch::start(),
        }
    }

    /// The alerts that went off, oldest first.
    pub fn alerts(&self) -> (r: &Vec<FiredAlert>)
        ensures
            r@ == self@.alerts,
    {
        &self.alerts
    }

    /// The id that the next alert gets.
    pub fn next_id(&self) -> (r: u64)
        ensures
            r == self@.next_id,
    {
        self.next_id
    }

    /// Evaluates the rule that `check` names on the check's reading, which stands to the
    /// rule's threshold as `comparison` says. `now` is the time on the agent's own clock in nanoseconds
    /// and `fired_at` the Unix time in seconds. An alert that goes off is recorded
    /// and given back; while its broker's metric is quiet, none does.
    pub fn evaluate(
        &mut self,
        check: &Check,
        rules: &Vec<AlertRule>,
        comparison: &Comparison,
        now: u128,
        fired_at: i64,
    ) -> (r: Option<FiredAlert>)
        requires
            check.rule < rules@.len(),
            old(self)@.goes_off(*check, rules@[check.rule as int], *comparison, now) ==> old(self)@.next_id < u64::MAX,
        ensures
            final(self)@ == old(self)@.evaluated(*check, rules@[check.rule as int], *comparison, now, fired_at),
            r == (if old(self)@.goes_off(*check, rules@[check.rule as int], *comparison, now) {
                Some(old(self)@.alert_for(*check, rules@[check.rule as int], fired_at))
            } else {
                None
            }),
            old(self)@.numbered() ==> final(self)@.numbered(),
            old(self)@.unacknowledged() ==> final(self)@.unacknowledged(),
            final(self).started_at() == old(self).started_at(),
    {
        let rule = &rules[check.rule];
        if !breached(rule.operator.as_str(), comparison) {
            return None;
        }
        let key = cooldown_key(check.broker_id.as_str(), rule.metric.as_str());
        match self.cooldowns.get(key.as_str()) {
            Some(last) => {
                let since: u128 = if now < last {
                    0
                } else {
                    (now - last) / NANOS_PER_SEC
                };
                if since < rule.cooldown_secs as u128 {
                    return None;
                }
            },
            None => {},
        }
        self.cooldowns.insert(key, now);
        let alert = FiredAlert {
            id: self.next_id,
            broker_id: check.broker_id.clone(),
            metric: rule.metric.clone(),
            operator: rule.operator.clone(),
            value: check.value,
            threshold: rule.threshold,
            fired_at,
            acknowledged: false,
        };
        self.next_id = self.next_id + 1;
        self.alerts.push(alert.clone());
        Some(alert)
    }

    /// [`AlertBook::evaluate`] at the present time.
    pub fn evaluate_now(
        &mut self,
        check: &Check,
        rules: &Vec<AlertRule>,
        comparison: &Comparison,
    ) -> (r: Option<FiredAlert>)
        requires
            check.rule < rules@.len(),
            condition_holds(rules@[check.rule as int].operator@, *comparison) ==> old(self)@.next_id < u64::MAX,
        ensures
            exists|now: u128, fired_at: i64|
                {
                    &&& clock_gave_since(old(self).started_at(), now)
                    &&& clock_gave(fired_at)
                    &&& final(self)@ == #[trigger] old(self)@.evaluated(
                        *check,
                        rules@[check.rule as int],
                        *comparison,
                        now,
                        fired_at,
                    )
                    &&& r == (if old(self)@.goes_off(*check, rules@[check.rule as int], *comparison, now) {
                        Some(old(self)@.alert_for(*check, rules@[check.rule as int], fired_at))
                    } else {
                        None
                    })
                },
            !condition_holds(rules@[check.rule as int].operator@, *comparison) ==> r is None,
            condition_holds(rules@[check.rule as int].operator@, *comparison) && !old(self)@.cooldowns.contains_key(
                cooldown_key_text(check.broker_id@, rules@[check.rule as int].metric@),
            ) ==> r is Some,
            old(self)@.numbered() ==> final(self)@.numbered(),
            old(self)@.unacknowledged() ==> final(self)@.unacknowledged(),
            final(self).started_at() == old(self).started_at(),
    {
        let now: u128 = self.clock.nanos();
        let fired_at: i64 = unix_secs();
        self.evaluate(check, rules, comparison, now, fired_at)
    }
}

/// While an alert is quiet, no rule on the same metric of the same broker sets off
/// another: evaluating one within its cooldown of the last alert changes nothing.
pub proof fn no_alert_during_cooldown(
    book: AlertBookView,
    first: Check,
    first_rule: AlertRule,
    first_comparison: Comparison,
    then: u128,
    fired_at: i64,
    second: Check,
    second_rule: AlertRule,
    second_comparison: Comparison,
    now: u128,
    later: i64,
)
    requires
        book.goes_off(first, first_rule, first_comparison, then),
        second.broker_id@ == first.broker_id@,
        second_rule.metric@ == first_rule.metric@,
        secs_since(then, now) < second_rule.cooldown_secs,
    ensures
        ({
            let after = book.evaluated(first, first_rule, first_comparison, then, fired_at);
            &&& !after.goes_off(second, second_rule, second_comparison, now)
            &&& after.evaluated(second, second_rule, second_comparison, now, later) == after
        }),
{
}

/// Once the cooldown has passed, a rule whose condition holds sets its alert off
/// again.
pub proof fn alert_returns_after_cooldown(
    book: AlertBookView,
    check: Check,
    rule: AlertRule,
    comparison: Comparison,
    now: u128,
)
    requires
        condition_holds(rule.operator@, comparison),
        ({
            let key = cooldown_key_text(check.broker_id@, rule.metric@);
            book.cooldowns.contains_key(key) ==> secs_since(book.cooldowns[key], now)
                >= rule.cooldown_secs
        }),
    ensures
        book.goes_off(check, rule, comparison, now),
{
}

/// Two brokers, or two metrics of one broker, never share a cooldown.
pub proof fn cooldown_keys_are_distinct(
    broker_a: Seq<char>,
    metric_a: Seq<char>,
    broker_b: Seq<char>,
    metric_b: Seq<char>,
)
    requires
        metric_named(metric_a) is Some,
        metric_named(metric_b) is Some,
        cooldown_key_text(broker_a, metric_a) == cooldown_key_text(broker_b, metric_b),
    ensures
        broker_a == broker_b,
        metric_a == metric_b,
{
    reveal_strlit(":");
    metric_names_have_no_colon(metric_a);
    metric_names_have_no_colon(metric_b);
    let a = cooldown_key_text(broker_a, metric_a);
    let b = cooldown_key_text(broker_b, metric_b);
    assert(a.len() == broker_a.len() + 1 + metric_a.len());
    assert(b.len() == broker_b.len() + 1 + metric_b.len());
    assert(a[broker_a.len() as int] == ':');
    assert(b[broker_b.len() as int] == ':');
    if broker_a.len() < broker_b.len() {
        assert(a[broker_b.len() as int] == metric_a[broker_b.len() - broker_a.len() - 1]);
    }
    if broker_b.len() < broker_a.len() {
        assert(b[broker_a.len() as int] == metric_b[broker_a.len() - broker_b.len() - 1]);
    }
    assert(broker_a =~= a.take(broker_a.len() as int));
    assert(broker_b =~= b.take(broker_b.len() as int));
    assert(metric_a =~= a.skip(broker_a.len() as int + 1));
    assert(metric_b =~= b.skip(broker_b.len() as int + 1));
}

/// An alert of one broker's metric does not keep another broker or another metric
/// quiet: what is quiet there stays so, and what is not goes off as before.
pub proof fn cooldowns_are_independent(
    book: AlertBookView,
    check: Check,
    rule: AlertRule,
    comparison: Comparison,
    now: u128,
    fired_at: i64,
    other: Check,
    other_rule: AlertRule,
    other_comparison: Comparison,
    later: u128,
)
    requires
        metric_named(rule.metric@) is Some,
        metric_named(other_rule.metric@) is Some,
        other.broker_id@ != check.broker_id@ || other_rule.metric@ != rule.metric@,
    ensures
        book.evaluated(check, rule, comparison, now, fired_at).goes_off(
            other,
            other_rule,
            other_comparison,
            later,
        ) == book.goes_off(other, other_rule, other_comparison, later),
{
    let key = cooldown_key_text(check.broker_id@, rule.metric@);
    let other_key = cooldown_key_text(other.broker_id@, other_rule.metric@);
    if key == other_key {
        cooldown_keys_are_distinct(
            check.broker_id@,
            rule.metric@,
            other.broker_id@,
            other_rule.metric@,
        );
    }
}

/// No two alerts have the same id.
pub proof fn alert_ids_are_unique(book: AlertBookView, i: int, j: int)
    requires
        book.numbered(),
        0 <= i < book.alerts.len(),
        0 <= j < book.alerts.len(),
        book.alerts[i].id == book.alerts[j].id,
    ensures
        i == j,
{
}

/// Evaluation never loses or changes a recorded alert.
pub proof fn recorded_alerts_stay(
    book: AlertBookView,
    check: Check,
    rule: AlertRule,
    comparison: Comparison,
    now: u128,
    fired_at: i64,
    i: int,
)
    requires
        0 <= i < book.alerts.len(),
    ensures
        book.evaluated(check, rule, comparison, now, fired_at).alerts.len() >= book.alerts.len(),
        book.evaluated(check, rule, comparison, now, fired_at).alerts[i] == book.alerts[i],
{
}

/// An evaluation of a rule: what it was held against, and when.
pub struct Evaluation {
    pub check: Check,
    pub rule: AlertRule,
    pub comparison: Comparison,
    pub now: u128,
    pub fired_at: i64,
}

/// The book after `run`, one evaluation after the other.
pub open spec fn after_run(book: AlertBookView, run: Seq<Evaluation>) -> AlertBookView
    decreases run.len(),
{
    if run.len() == 0 {
        book
    } else {
        let last = run.last();
        after_run(book, run.drop_last()).evaluated(
            last.check,
            last.rule,
            last.comparison,
            last.now,
            last.fired_at,
        )
    }
}

/// An evaluation takes an id exactly when it sets an alert off; otherwise it leaves
/// the book as it is.
pub proof fn only_an_alert_takes_an_id(book: AlertBookView, step: Evaluation)
    requires
        book.next_id < u64::MAX,
    ensures
        ({
            let after = book.evaluated(
                step.check,
                step.rule,
                step.comparison,
                step.now,
                step.fired_at,
            );
            if book.goes_off(step.check, step.rule, step.comparison, step.now) {
                after.next_id == book.next_id + 1
            } else {
                after == book
            }
        }),
{
}

/// Over any number of evaluations the book only grows: what it held stays at its
/// place, alerts are numbered without a gap by their places, and none becomes
/// acknowledged. Run from an empty book, it says this of every state.
pub proof fn book_only_grows(book: AlertBookView, run: Seq<Evaluation>)
    requires
        book.numbered(),
        book.unacknowledged(),
        book.alerts.len() + run.len() <= u64::MAX,
    ensures
        ({
            let after = after_run(book, run);
            &&& after.numbered()
            &&& after.unacknowledged()
            &&& book.alerts.len() <= after.alerts.len() <= book.alerts.len() + run.len()
            &&& after.alerts.take(book.alerts.len() as int) == book.alerts
        }),
    decreases run.len(),
{
    if run.len() == 0 {
        assert(book.alerts.take(book.alerts.len() as int) =~= book.alerts);
    } else {
        book_only_grows(book, run.drop_last());
        let before = after_run(book, run.drop_last());
        let after = after_run(book, run);
        assert(after.alerts.take(book.alerts.len() as int) =~= before.alerts.take(
            book.alerts.len() as int,
        ));
    }
}

proof fn lemma_run_only_adds(book: AlertBookView, run: Seq<Evaluation>, k: int)
    requires
        0 <= k <= run.len(),
    ensures
        after_run(book, run.take(k)).alerts.len() <= after_run(book, run).alerts.len(),
        after_run(book, run).alerts.take(after_run(book, run.take(k)).alerts.len() as int)
            == after_run(book, run.take(k)).alerts,
    decreases run.len() - k,
{
    let then = after_run(book, run.take(k));
    if k == run.len() {
        assert(run.take(k) =~= run);
        assert(then.alerts.take(then.alerts.len() as int) =~= then.alerts);
    } else {
        let earlier = run.drop_last();
        lemma_run_only_adds(book, earlier, k);
        assert(earlier.take(k) =~= run.take(k));
        assert(after_run(book, run).alerts.take(then.alerts.len() as int) =~= after_run(
            book,
            earlier,
        ).alerts.take(then.alerts.len() as int));
    }
}

/// An evaluation that sets an alert off leaves it in the book for good: at the end of
/// the run the alert stands at the place that was the next one.
pub proof fn alert_of_a_step_is_recorded(book: AlertBookView, run: Seq<Evaluation>, k: int)
    requires
        0 <= k < run.len(),
        after_run(book, run.take(k)).goes_off(
            run[k].check,
            run[k].rule,
            run[k].comparison,
            run[k].now,
        ),
    ensures
        ({
            let before = after_run(book, run.take(k));
            let after = after_run(book, run);
            &&& before.alerts.len() < after.alerts.len()
            &&& after.alerts[before.alerts.len() as int] == before.alert_for(
                run[k].check,
                run[k].rule,
                run[k].fired_at,
            )
        }),
{
    let before = after_run(book, run.take(k));
    let next = run.take(k + 1);
    assert(next.drop_last() =~= run.take(k));
    assert(next.last() == run[k]);
    lemma_run_only_adds(book, run, k + 1);
    let place = before.alerts.len() as int;
    let at = after_run(book, next).alerts;
    assert(at[place] == before.alert_for(run[k].check, run[k].rule, run[k].fired_at));
    assert(after_run(book, run).alerts.take(at.len() as int)[place] == at[place]);
}

/// Every alert that a run adds was set off by one of its evaluations.
pub proof fn alert_comes_from_a_step(
    book: AlertBookView,
    run: Seq<Evaluation>,
    place: int,
) -> (k: int)
    requires
        book.alerts.len() <= place < after_run(book, run).alerts.len(),
    ensures
        0 <= k < run.len(),
        ({
            let before = after_run(book, run.take(k));
            &&& before.goes_off(run[k].check, run[k].rule, run[k].comparison, run[k].now)
            &&& before.alerts.len() == place
            &&& after_run(book, run).alerts[place] == before.alert_for(
                run[k].check,
                run[k].rule,
                run[k].fired_at,
            )
        }),
    decreases run.len(),
{
    let earlier = run.drop_last();
    let before = after_run(book, earlier);
    if place < before.alerts.len() {
        let k = alert_comes_from_a_step(book, earlier, place);
        assert(earlier.take(k) =~= run.take(k));
        lemma_run_only_adds(book, run, run.len() - 1);
        assert(run.take(run.len() - 1) =~= earlier);
        assert(after_run(book, run).alerts.take(before.alerts.len() as int)[place]
            == before.alerts[place]);
        k
    } else {
        assert(run.take(run.len() - 1) =~= earlier);
        run.len() - 1
    }
}

proof fn lemma_cooldown_runs_from_the_last_alert(
    book: AlertBookView,
    run: Seq<Evaluation>,
    i: int,
    j: int,
)
    requires
        0 <= i < j <= run.len(),
        after_run(book, run.take(i)).goes_off(
            run[i].check,
            run[i].rule,
            run[i].comparison,
            run[i].now,
        ),
        forall|m: int| i <= m < j ==> run[i].now <= (#[trigger] run[m]).now,
    ensures
        ({
            let key = cooldown_key_text(run[i].check.broker_id@, run[i].rule.metric@);
            let after = after_run(book, run.take(j));
            after.cooldowns.contains_key(key) && after.cooldowns[key] >= run[i].now
        }),
    decreases j - i,
{
    let next = run.take(j);
    assert(next.drop_last() =~= run.take(j - 1));
    assert(next.last() == run[j - 1]);
    if j > i + 1 {
        lemma_cooldown_runs_from_the_last_alert(book, run, i, j - 1);
    }
    assert(run[i].now <= run[j - 1].now);
}

/// On a clock that does not go back, two alerts of the same metric of the same broker
/// are at least the later rule's cooldown apart, whatever is evaluated in between.
pub proof fn alerts_of_a_metric_are_a_cooldown_apart(
    book: AlertBookView,
    run: Seq<Evaluation>,
    i: int,
    k: int,
)
    requires
        0 <= i < k < run.len(),
        forall|m: int| i <= m <= k ==> run[i].now <= (#[trigger] run[m]).now,
        run[i].check.broker_id@ == run[k].check.broker_id@,
        run[i].rule.metric@ == run[k].rule.metric@,
        after_run(book, run.take(i)).goes_off(
            run[i].check,
            run[i].rule,
            run[i].comparison,
            run[i].now,
        ),
        after_run(book, run.take(k)).goes_off(
            run[k].check,
            run[k].rule,
            run[k].comparison,
            run[k].now,
        ),
    ensures
        secs_since(run[i].now, run[k].now) >= run[k].rule.cooldown_secs,
{
    lemma_cooldown_runs_from_the_last_alert(book, run, i, k);
    let key = cooldown_key_text(run[i].check.broker_id@, run[i].rule.metric@);
    let last = after_run(book, run.take(k)).cooldowns[key];
    let now = run[k].now;
    assert(run[i].now <= now);
    if last <= now {
        assert((now - last) / 1_000_000_000 <= (now - run[i].now) / 1_000_000_000);
    }
}

/// What comes of the outside work on one check: how its reading stands to the
/// threshold, and the time.
pub struct Outcome {
    pub comparison: Comparison,
    /// On the agent's own clock, in nanoseconds.
    pub now: u128,
    /// Unix time in seconds.
    pub fired_at: i64,
}

/// The evaluations of a tick, one for each outcome: each check is held against the
/// rule that it names.
pub open spec fn tick_run(
    checks: Seq<Check>,
    rules: Seq<AlertRule>,
    outcomes: Seq<Outcome>,
) -> Seq<Evaluation> {
    Seq::new(
        outcomes.len(),
        |i: int|
            Evaluation {
                check: checks[i],
                rule: rules[checks[i].rule as int],
                comparison: outcomes[i].comparison,
                now: outcomes[i].now,
                fired_at: outcomes[i].fired_at,
            },
    )
}

/// The book after a tick over `turns`, the brokers one after the other, each with the
/// metrics that it had when its turn came. Where there are fewer outcomes than checks,
/// the tick has come so far.
pub open spec fn ticked(
    book: AlertBookView,
    turns: Seq<(String, BrokerMetrics)>,
    rules: Seq<AlertRule>,
    outcomes: Seq<Outcome>,
) -> AlertBookView {
    after_run(book, tick_run(checks_of(turns, rules, turns.len()), rules, outcomes))
}

/// A tick goes check by check: the next one is evaluated on the book as the checks
/// before have left it, with the rule that it names.
pub proof fn tick_goes_check_by_check(
    book: AlertBookView,
    turns: Seq<(String, BrokerMetrics)>,
    rules: Seq<AlertRule>,
    outcomes: Seq<Outcome>,
    next: Outcome,
)
    ensures
        ticked(book, turns, rules, Seq::empty()) == book,
        ({
            let check = checks_of(turns, rules, turns.len())[outcomes.len() as int];
            ticked(book, turns, rules, outcomes.push(next)) == ticked(
                book,
                turns,
                rules,
                outcomes,
            ).evaluated(
                check,
                rules[check.rule as int],
                next.comparison,
                next.now,
                next.fired_at,
            )
        }),
{
    let checks = checks_of(turns, rules, turns.len());
    let run = tick_run(checks, rules, outcomes.push(next));
    assert(run.drop_last() =~= tick_run(checks, rules, outcomes));
    assert(tick_run(checks, rules, Seq::empty()) =~= Seq::<Evaluation>::empty());
}

/// A tick adds no alert but those of its breaches: every alert that it adds is that of
/// a check, held against the rule that the check names, and went off in its turn.
pub proof fn tick_adds_only_its_breaches(
    book: AlertBookView,
    turns: Seq<(String, BrokerMetrics)>,
    rules: Seq<AlertRule>,
    outcomes: Seq<Outcome>,
    place: int,
) -> (k: int)
    requires
        outcomes.len() <= checks_of(turns, rules, turns.len()).len(),
        book.alerts.len() <= place < ticked(book, turns, rules, outcomes).alerts.len(),
    ensures
        0 <= k < outcomes.len(),
        ({
            let check = checks_of(turns, rules, turns.len())[k];
            let rule = rules[check.rule as int];
            let before = ticked(book, turns, rules, outcomes.take(k));
            &&& before.goes_off(check, rule, outcomes[k].comparison, outcomes[k].now)
            &&& before.alerts.len() == place
            &&& ticked(book, turns, rules, outcomes).alerts[place] == before.alert_for(
                check,
                rule,
                outcomes[k].fired_at,
            )
        }),
{
    let checks = checks_of(turns, rules, turns.len());
    let run = tick_run(checks, rules, outcomes);
    let k = alert_comes_from_a_step(book, run, place);
    assert(run.take(k) =~= tick_run(checks, rules, outcomes.take(k)));
    k
}

/// A breach that is not quiet when its turn comes is recorded by the tick.
pub proof fn breach_in_a_tick_is_recorded(
    book: AlertBookView,
    turns: Seq<(String, BrokerMetrics)>,
    rules: Seq<AlertRule>,
    outcomes: Seq<Outcome>,
    k: int,
)
    requires
        0 <= k < outcomes.len() <= checks_of(turns, rules, turns.len()).len(),
        ({
            let check = checks_of(turns, rules, turns.len())[k];
            ticked(book, turns, rules, outcomes.take(k)).goes_off(
                check,
                rules[check.rule as int],
                outcomes[k].comparison,
                outcomes[k].now,
            )
        }),
    ensures
        ({
            let check = checks_of(turns, rules, turns.len())[k];
            let before = ticked(book, turns, rules, outcomes.take(k));
            let after = ticked(book, turns, rules, outcomes);
            &&& before.alerts.len() < after.alerts.len()
            &&& after.alerts[before.alerts.len() as int] == before.alert_for(
                check,
                rules[check.rule as int],
                outcomes[k].fired_at,
            )
        }),
{
    let checks = checks_of(turns, rules, turns.len());
    let run = tick_run(checks, rules, outcomes);
    assert(run.take(k) =~= tick_run(checks, rules, outcomes.take(k)));
    alert_of_a_step_is_recorded(book, run, k);
}

/// Every check names a rule of the list, and carries the reading that the rule's metric
/// has on the broker whose turn it is.
pub proof fn check_carries_its_reading(
    turns: Seq<(String, BrokerMetrics)>,
    rules: Seq<AlertRule>,
    n: nat,
    at: int,
) -> (turn: int)
    requires
        n <= turns.len(),
        rules.len() <= usize::MAX,
        0 <= at < checks_of(turns, rules, n).len(),
    ensures
        0 <= turn < n,
        ({
            let check = checks_of(turns, rules, n)[at];
            &&& check.rule < rules.len()
            &&& check.broker_id == turns[turn].0
            &&& reading_named(turns[turn].1, rules[check.rule as int].metric@) == Some(check.value)
        }),
    decreases n,
{
    let earlier = checks_of(turns, rules, (n - 1) as nat);
    if at < earlier.len() {
        check_carries_its_reading(turns, rules, (n - 1) as nat, at)
    } else {
        lemma_broker_check_is_sound(turns[n - 1], rules, rules.len(), at - earlier.len());
        n - 1
    }
}

proof fn lemma_broker_check_is_sound(
    entry: (String, BrokerMetrics),
    rules: Seq<AlertRule>,
    k: nat,
    at: int,
)
    requires
        k <= rules.len() <= usize::MAX,
        0 <= at < checks_of_broker(entry, rules, k).len(),
    ensures
        ({
            let check = checks_of_broker(entry, rules, k)[at];
            &&& check.rule < k
            &&& check.broker_id == entry.0
            &&& reading_named(entry.1, rules[check.rule as int].metric@) == Some(check.value)
        }),
    decreases k,
{
    let earlier = checks_of_broker(entry, rules, (k - 1) as nat);
    if at < earlier.len() {
        lemma_broker_check_is_sound(entry, rules, (k - 1) as nat, at);
    }
}

/// The checks of a tick are those of its turns, one turn after the other.
pub proof fn checks_go_turn_by_turn(
    earlier: Seq<(String, BrokerMetrics)>,
    later: Seq<(String, BrokerMetrics)>,
    rules: Seq<AlertRule>,
)
    ensures
        checks_of(earlier + later, rules, (earlier + later).len()) == checks_of(
            earlier,
            rules,
            earlier.len(),
        ) + checks_of(later, rules, later.len()),
    decreases later.len(),
{
    let all = earlier + later;
    if later.len() == 0 {
        assert(all =~= earlier);
        assert(checks_of(later, rules, 0) =~= Seq::<Check>::empty());
        assert(checks_of(earlier, rules, earlier.len()) + Seq::<Check>::empty() =~= checks_of(
            earlier,
            rules,
            earlier.len(),
        ));
    } else {
        let rest = later.drop_last();
        checks_go_turn_by_turn(earlier, rest, rules);
        assert((earlier + rest) =~= all.drop_last());
        lemma_first_turns(all, rules, (all.len() - 1) as nat);
        lemma_first_turns(later, rules, (later.len() - 1) as nat);
        assert(all.last() == later.last());
        assert(checks_of(all, rules, all.len()) =~= checks_of(earlier, rules, earlier.len())
            + checks_of(later, rules, later.len()));
    }
}

proof fn lemma_first_turns(turns: Seq<(String, BrokerMetrics)>, rules: Seq<AlertRule>, n: nat)
    requires
        n < turns.len(),
    ensures
        checks_of(turns, rules, n) == checks_of(turns.drop_last(), rules, n),
    decreases n,
{
    if n > 0 {
        lemma_first_turns(turns, rules, (n - 1) as nat);
        assert(turns.drop_last()[n - 1] == turns[n - 1]);
    }
}

/// Over a state that stays as it is, a tick that takes every broker in turn has the
/// whole state for its turns, each broker once.
pub proof fn turns_cover_the_state(ids: Seq<String>, held: Map<Seq<char>, BrokerMetrics>)
    requires
        texts(ids).to_set() == held.dom(),
        texts(ids).no_duplicates(),
    ensures
        lists_entries(
            Seq::new(ids.len(), |i: int| (ids[i], held[ids[i]@])),
            held,
        ),
        forall|i: int|
            0 <= i < ids.len() ==> turn_of(#[trigger] ids[i], held) == seq![
                (ids[i], held[ids[i]@]),
            ],
{
    let names = texts(ids);
    let turns = Seq::new(ids.len(), |i: int| (ids[i], held[ids[i]@]));
    assert forall|i: int| 0 <= i < ids.len() implies held.contains_key((#[trigger] ids[i])@) by {
        assert(names[i] == ids[i]@);
        assert(names.to_set().contains(names[i]));
    }
    assert forall|i: int, j: int| 0 <= i < j < turns.len() implies (#[trigger] turns[i]).0@ != (
    #[trigger] turns[j]).0@ by {
        assert(names[i] != names[j]);
    }
    assert forall|i: int| 0 <= i < turns.len() implies held.contains_key(
        (#[trigger] turns[i]).0@,
    ) && held[turns[i].0@] == turns[i].1 by {
        assert(held.contains_key(ids[i]@));
    }
    assert forall|id: Seq<char>| #[trigger] held.contains_key(id) implies exists|i: int|
        0 <= i < turns.len() && (#[trigger] turns[i]).0@ == id by {
        assert(names.to_set().contains(id));
        let i = names.index_of(id);
        assert(turns[i].0@ == id);
    }
}

/// A broker of which every figure has been scraped.
pub open spec fn fully_scraped(metrics: BrokerMetrics) -> bool {
    &&& metrics.clients_connected is Some
    &&& metrics.messages_sent is Some
    &&& metrics.messages_received is Some
    &&& metrics.bytes_sent is Some
    &&& metrics.bytes_received is Some
    &&& metrics.cpu_percent is Some
    &&& metrics.mem_usage_mb is Some
    &&& metrics.net_rx_bytes is Some
    &&& metrics.net_tx_bytes is Some
}

/// A valid rule is never passed over for want of a metric: on a broker whose figures
/// have all been scraped it has a reading, and on any broker it lacks one only where
/// that very figure is missing.
pub proof fn valid_rule_has_a_reading(rule: AlertRule, metrics: BrokerMetrics)
    requires
        valid_rule(rule),
    ensures
        reading_named(metrics, rule.metric@) == figure(metrics, metric_named(rule.metric@)->0),
        fully_scraped(metrics) ==> reading_named(metrics, rule.metric@) is Some,
{
}

/// Every rule whose metric has a reading is checked on every broker.
pub proof fn every_reading_is_checked(
    entries: Seq<(String, BrokerMetrics)>,
    rules: Seq<AlertRule>,
    i: int,
    k: int,
)
    requires
        0 <= i < entries.len(),
        0 <= k < rules.len() <= usize::MAX,
        reading_named(entries[i].1, rules[k].metric@) is Some,
    ensures
        checks_of(entries, rules, entries.len()).contains(
            Check {
                broker_id: entries[i].0,
                rule: k as usize,
                value: reading_named(entries[i].1, rules[k].metric@)->0,
            },
        ),
{
    let check = Check {
        broker_id: entries[i].0,
        rule: k as usize,
        value: reading_named(entries[i].1, rules[k].metric@)->0,
    };
    lemma_broker_check_is_listed(entries[i], rules, k, rules.len());
    lemma_broker_is_covered(entries, rules, i, entries.len(), check);
}

proof fn lemma_broker_check_is_listed(
    entry: (String, BrokerMetrics),
    rules: Seq<AlertRule>,
    k: int,
    upto: nat,
)
    requires
        0 <= k < upto <= rules.len(),
        rules.len() <= usize::MAX,
        reading_named(entry.1, rules[k].metric@) is Some,
    ensures
        checks_of_broker(entry, rules, upto).contains(
            Check {
                broker_id: entry.0,
                rule: k as usize,
                value: reading_named(entry.1, rules[k].metric@)->0,
            },
        ),
    decreases upto,
{
    let check = Check {
        broker_id: entry.0,
        rule: k as usize,
        value: reading_named(entry.1, rules[k].metric@)->0,
    };
    let earlier = checks_of_broker(entry, rules, (upto - 1) as nat);
    let all = checks_of_broker(entry, rules, upto);
    if k == upto - 1 {
        assert(all[earlier.len() as int] == check);
    } else {
        lemma_broker_check_is_listed(entry, rules, k, (upto - 1) as nat);
        let at = earlier.index_of(check);
        assert(all[at] == check);
    }
}

proof fn lemma_broker_is_covered(
    entries: Seq<(String, BrokerMetrics)>,
    rules: Seq<AlertRule>,
    i: int,
    upto: nat,
    check: Check,
)
    requires
        0 <= i < upto <= entries.len(),
        checks_of_broker(entries[i], rules, rules.len()).contains(check),
    ensures
        checks_of(entries, rules, upto).contains(check),
    decreases upto,
{
    let earlier = checks_of(entries, rules, (upto - 1) as nat);
    let own = checks_of_broker(entries[upto - 1], rules, rules.len());
    let all = checks_of(entries, rules, upto);
    if i == upto - 1 {
        let at = own.index_of(check);
        assert(all[earlier.len() + at] == check);
    } else {
        lemma_broker_is_covered(entries, rules, i, (upto - 1) as nat, check);
        let at = earlier.index_of(check);
        assert(all[at] == check);
    }
}

} // verus!
