//! What holds of alerts: when one goes off, what is recorded of it, and which readings
//! are held against which rules.

#[allow(unused_imports)]
use vstd::prelude::*;

#[allow(unused_imports)]
use crate::alerts::{
    checks_of, checks_of_broker, cooldown_key_text, secs_since, turn_of, AlertBookView, Check,
};
#[allow(unused_imports)]
use crate::config::AlertRule;
#[allow(unused_imports)]
use crate::metric::{condition_holds, reading_named, Comparison};
#[allow(unused_imports)]
use crate::metrics_laws::operators_mean_what_they_say;
#[allow(unused_imports)]
use crate::types::{BrokerMetrics, FiredAlert};

verus! {

/// Elapsed time is real time: the whole seconds since `last` are those that fit into the
/// nanoseconds from `last` to `now`, however many they are.
pub proof fn elapsed_seconds_fit_the_nanoseconds(last: u128, now: u128)
    ensures
        last <= now ==> secs_since(last, now) * 1_000_000_000 <= now - last < (secs_since(last, now)
            + 1) * 1_000_000_000,
        now < last ==> secs_since(last, now) == 0,
{
}

/// An alert goes off exactly when the reading breaches the rule as the rule's operator
/// says and no alert of the same broker and metric went off less than the rule's
/// cooldown ago.
pub proof fn alert_goes_off_unless_one_did_within_the_cooldown(
    book: AlertBookView,
    check: Check,
    rule: AlertRule,
    comparison: Comparison,
    now: u128,
)
    ensures
        book.goes_off(check, rule, comparison, now) <==> {
            let key = check.broker_id@ + ":"@ + rule.metric@;
            &&& (rule.operator@ == ">"@ && comparison.above) || (rule.operator@ == "<"@
                && comparison.below) || (rule.operator@ == "=="@ && comparison.near)
            &&& !(book.cooldowns.contains_key(key) && rule.cooldown_secs > 0 && now
                - book.cooldowns[key] < rule.cooldown_secs * 1_000_000_000)
        },
{
    let key = check.broker_id@ + ":"@ + rule.metric@;
    assert(key =~= cooldown_key_text(check.broker_id@, rule.metric@));
    operators_mean_what_they_say(comparison, rule.operator@);
    if book.cooldowns.contains_key(key) {
        elapsed_seconds_fit_the_nanoseconds(book.cooldowns[key], now);
    }
}

/// An alert that goes off is recorded behind the earlier ones, with the next id, the
/// check's broker and reading, the rule's metric, operator and threshold, and the time;
/// its cooldown starts. Nothing else changes, and without an alert nothing changes.
pub proof fn alert_is_recorded_as_it_went_off(
    book: AlertBookView,
    check: Check,
    rule: AlertRule,
    comparison: Comparison,
    now: u128,
    fired_at: i64,
)
    requires
        book.next_id < u64::MAX,
    ensures
        ({
            let after = book.evaluated(check, rule, comparison, now, fired_at);
            if book.goes_off(check, rule, comparison, now) {
                &&& after.next_id == book.next_id + 1
                &&& after.cooldowns == book.cooldowns.insert(
                    check.broker_id@ + ":"@ + rule.metric@,
                    now,
                )
                &&& after.alerts.len() == book.alerts.len() + 1
                &&& after.alerts.drop_last() == book.alerts
                &&& after.alerts.last() == (FiredAlert {
                    id: book.next_id,
                    broker_id: check.broker_id,
                    metric: rule.metric,
                    operator: rule.operator,
                    value: check.value,
                    threshold: rule.threshold,
                    fired_at: fired_at,
                    acknowledged: false,
                })
            } else {
                after == book
            }
        }),
        book.alert_for(check, rule, fired_at) == (FiredAlert {
            id: book.next_id,
            broker_id: check.broker_id,
            metric: rule.metric,
            operator: rule.operator,
            value: check.value,
            threshold: rule.threshold,
            fired_at: fired_at,
            acknowledged: false,
        }),
{
    let after = book.evaluated(check, rule, comparison, now, fired_at);
    assert(cooldown_key_text(check.broker_id@, rule.metric@) =~= check.broker_id@ + ":"@
        + rule.metric@);
    if book.goes_off(check, rule, comparison, now) {
        assert(after.alerts.drop_last() =~= book.alerts);
    }
}

/// A book starts without an alert, at the id zero and with nothing quiet. A numbered book
/// has every alert at the place of its id, and an unacknowledged one has none that is
/// acknowledged.
pub proof fn book_starts_empty(book: AlertBookView, i: int)
    ensures
        AlertBookView::empty().next_id == 0,
        AlertBookView::empty().alerts.len() == 0,
        AlertBookView::empty().cooldowns.dom() == Set::<Seq<char>>::empty(),
        book.numbered() && 0 <= i < book.alerts.len() ==> book.alerts[i].id == i && book.next_id
            == book.alerts.len(),
        book.unacknowledged() && 0 <= i < book.alerts.len() ==> !book.alerts[i].acknowledged,
{
    assert(AlertBookView::empty().cooldowns.dom() =~= Set::<Seq<char>>::empty());
}

/// Once an alert went off, the next one of the same broker and metric goes off as soon
/// as the rule's cooldown has passed in full, and not a nanosecond before.
pub proof fn cooldown_lasts_as_long_as_the_rule_says(
    book: AlertBookView,
    first: Check,
    first_rule: AlertRule,
    first_comparison: Comparison,
    then: u128,
    fired_at: i64,
    second: Check,
    second_rule: AlertRule,
    second_comparison: Comparison,
    now: u128,
)
    requires
        book.goes_off(first, first_rule, first_comparison, then),
        second.broker_id@ == first.broker_id@,
        second_rule.metric@ == first_rule.metric@,
        condition_holds(second_rule.operator@, second_comparison),
        then <= now,
    ensures
        book.evaluated(first, first_rule, first_comparison, then, fired_at).goes_off(
            second,
            second_rule,
            second_comparison,
            now,
        ) <==> now - then >= second_rule.cooldown_secs * 1_000_000_000,
{
    let after = book.evaluated(first, first_rule, first_comparison, then, fired_at);
    operators_mean_what_they_say(second_comparison, second_rule.operator@);
    alert_goes_off_unless_one_did_within_the_cooldown(
        after,
        second,
        second_rule,
        second_comparison,
        now,
    );
    assert(cooldown_key_text(first.broker_id@, first_rule.metric@) =~= first.broker_id@ + ":"@
        + first_rule.metric@);
}

proof fn lemma_checks_of_one_broker(
    entry: (String, BrokerMetrics),
    rules: Seq<AlertRule>,
    n: nat,
)
    requires
        n <= rules.len() <= usize::MAX,
    ensures
        ({
            let checks = checks_of_broker(entry, rules, n);
            &&& checks.len() <= n
            &&& forall|i: int|
                0 <= i < checks.len() ==> {
                    let check = #[trigger] checks[i];
                    &&& check.broker_id == entry.0
                    &&& check.rule < n
                    &&& reading_named(entry.1, rules[check.rule as int].metric@) == Some(
                        check.value,
                    )
                }
            &&& forall|i: int, j: int|
                0 <= i < j < checks.len() ==> (#[trigger] checks[i]).rule < (
                #[trigger] checks[j]).rule
            &&& forall|k: int|
                0 <= k < n && reading_named(entry.1, (#[trigger] rules[k]).metric@) is Some
                    ==> exists|i: int| 0 <= i < checks.len() && (#[trigger] checks[i]).rule == k
        }),
    decreases n,
{
    if n > 0 {
        let m = (n - 1) as nat;
        lemma_checks_of_one_broker(entry, rules, m);
        let earlier = checks_of_broker(entry, rules, m);
        let checks = checks_of_broker(entry, rules, n);
        assert forall|k: int|
            0 <= k < n && reading_named(
                entry.1,
                (#[trigger] rules[k]).metric@,
            ) is Some implies exists|i: int|
            0 <= i < checks.len() && (#[trigger] checks[i]).rule == k by {
            if k == m {
                assert(checks[earlier.len() as int].rule == k);
            } else {
                let i = choose|i: int| 0 <= i < earlier.len() && (#[trigger] earlier[i]).rule == k;
                assert(checks[i] == earlier[i]);
            }
        }
    }
}

/// When a broker's turn comes, each rule whose metric has a reading is checked once, in
/// the order of the rules, with the broker's id and that reading, and no other rule is.
/// A broker that has been taken off has no checks.
pub proof fn every_rule_with_a_reading_is_checked_once(
    broker_id: String,
    held: Map<Seq<char>, BrokerMetrics>,
    rules: Seq<AlertRule>,
)
    requires
        rules.len() <= usize::MAX,
    ensures
        ({
            let turn = turn_of(broker_id, held);
            let checks = checks_of(turn, rules, turn.len());
            if held.contains_key(broker_id@) {
                &&& forall|i: int|
                    0 <= i < checks.len() ==> {
                        let check = #[trigger] checks[i];
                        &&& check.broker_id@ == broker_id@
                        &&& check.rule < rules.len()
                        &&& reading_named(held[broker_id@], rules[check.rule as int].metric@)
                            == Some(check.value)
                    }
                &&& forall|i: int, j: int|
                    0 <= i < j < checks.len() ==> (#[trigger] checks[i]).rule < (
                    #[trigger] checks[j]).rule
                &&& forall|k: int|
                    0 <= k < rules.len() && reading_named(
                        held[broker_id@],
                        (#[trigger] rules[k]).metric@,
                    ) is Some ==> exists|i: int|
                        0 <= i < checks.len() && (#[trigger] checks[i]).rule == k
            } else {
                checks.len() == 0
            }
        }),
{
    let turn = turn_of(broker_id, held);
    let checks = checks_of(turn, rules, turn.len());
    if held.contains_key(broker_id@) {
        let entry = (broker_id, held[broker_id@]);
        assert(turn =~= seq![entry]);
        lemma_checks_of_one_broker(entry, rules, rules.len());
        assert(checks_of(turn, rules, 0) =~= Seq::<Check>::empty());
        assert(checks =~= checks_of_broker(entry, rules, rules.len()));
    }
}

} // verus!
