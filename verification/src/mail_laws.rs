//! What holds of the mail on an alert.

#[allow(unused_imports)]
use vstd::prelude::*;

#[allow(unused_imports)]
use crate::config::EmailConfig;
#[allow(unused_imports)]
use crate::email::{
    are_emails_of, body_text, composed_email, date_at, email_outcome, is_mailbox, obstacle,
    subject_text, EmailError, FigureTexts, DATES_END,
};
#[allow(unused_imports)]
use crate::reading::clock_gave;
#[allow(unused_imports)]
use crate::text::{decimal_text, signed_text};
#[allow(unused_imports)]
use crate::types::FiredAlert;

verus! {

/// The subject says what was breached, how far, and on which broker.
pub proof fn subject_names_condition_value_and_broker(alert: FiredAlert, figures: FigureTexts)
    ensures
        ({
            let condition = alert.metric@ + " "@ + alert.operator@ + " "@ + figures.threshold@;
            subject_text(alert, figures) == "[ProgressBox] ALERT — "@ + condition + " "@
                + figures.value@ + " on "@ + alert.broker_id@
        }),
{
    let condition = alert.metric@ + " "@ + alert.operator@ + " "@ + figures.threshold@;
    assert(subject_text(alert, figures) =~= "[ProgressBox] ALERT — "@ + condition + " "@
        + figures.value@ + " on "@ + alert.broker_id@);
}

/// The body gives broker, metric, condition, value, time and id, each in a line of its
/// own below the heading.
pub proof fn body_gives_each_particular_its_line(alert: FiredAlert, figures: FigureTexts)
    ensures
        ({
            let broker = alert.broker_id@;
            let metric = "\nMetric:    "@ + alert.metric@;
            let condition = "\nCondition: "@ + (alert.metric@ + " "@ + alert.operator@ + " "@
                + figures.threshold@);
            let value = "\nValue:     "@ + figures.value_rounded@;
            let time = "\nTime:      "@ + signed_text(alert.fired_at as int);
            let id = " (Unix)\nAlert ID:  "@ + decimal_text(alert.id as nat);
            body_text(alert, figures) == "ProgressBox Alert\n─────────────────\nBroker:    "@ + broker
                + metric + condition + value + time + id
        }),
{
    let broker = alert.broker_id@;
    let metric = "\nMetric:    "@ + alert.metric@;
    let condition = "\nCondition: "@ + (alert.metric@ + " "@ + alert.operator@ + " "@
        + figures.threshold@);
    let value = "\nValue:     "@ + figures.value_rounded@;
    let time = "\nTime:      "@ + signed_text(alert.fired_at as int);
    let id = " (Unix)\nAlert ID:  "@ + decimal_text(alert.id as nat);
    assert(body_text(alert, figures)
        =~= "ProgressBox Alert\n─────────────────\nBroker:    "@ + broker + metric + condition
        + value + time + id);
}

/// Between two mailboxes, on a date from 1970 to 9999, the mail is the one that its
/// parts make, or it cannot be put together; nothing else can go wrong.
pub proof fn mail_between_mailboxes_is_made(
    from: Seq<char>,
    to: Seq<char>,
    subject: Seq<char>,
    body: Seq<char>,
    date_secs: u64,
)
    ensures
        ({
            let outcome = email_outcome(from, to, subject, body, date_secs);
            &&& !is_mailbox(from) ==> outcome == Err::<Seq<u8>, EmailError>(EmailError::BadSender)
            &&& is_mailbox(from) && !is_mailbox(to) ==> outcome == Err::<Seq<u8>, EmailError>(
                EmailError::BadRecipient,
            )
            &&& is_mailbox(from) && is_mailbox(to) && date_secs >= 253402300800 ==> outcome == Err::<
                Seq<u8>,
                EmailError,
            >(EmailError::BadDate)
            &&& is_mailbox(from) && is_mailbox(to) && date_secs < 253402300800 ==> (
            match composed_email(from, to, subject, body, date_secs) {
                Some(bytes) => outcome == Ok::<Seq<u8>, EmailError>(bytes),
                None => outcome == Err::<Seq<u8>, EmailError>(EmailError::Build),
            })
        }),
{
}

/// What stands in the way of a mail is the first that does: the sender, the recipient,
/// the date.
pub proof fn first_obstacle_counts(sender_ok: bool, recipient_ok: bool, date_secs: u64)
    ensures
        !sender_ok ==> obstacle(sender_ok, recipient_ok, date_secs) == Some(EmailError::BadSender),
        sender_ok && !recipient_ok ==> obstacle(sender_ok, recipient_ok, date_secs) == Some(
            EmailError::BadRecipient,
        ),
        sender_ok && recipient_ok && date_secs >= 253402300800 ==> obstacle(
            sender_ok,
            recipient_ok,
            date_secs,
        ) == Some(EmailError::BadDate),
        sender_ok && recipient_ok && date_secs < 253402300800 ==> obstacle(
            sender_ok,
            recipient_ok,
            date_secs,
        ) is None,
{
}

/// A mail is dated with the time at which it is made; a time before 1970 counts as out
/// of range.
pub proof fn mail_is_dated_when_it_is_made(now: i64)
    ensures
        now >= 0 ==> date_at(now) == now,
        now < 0 ==> date_at(now) >= 253402300800,
{
}

/// Every recipient is told: there is one outcome for each, in the order in which they
/// are configured. From a mailbox to a mailbox, at a time from 1970 to 9999, the outcome
/// is the mail that its parts make, whoever the other recipients are; only a mail that
/// cannot be put together fails.
pub proof fn every_recipient_is_told(
    mails: Seq<Result<Vec<u8>, EmailError>>,
    email: EmailConfig,
    alert: FiredAlert,
    figures: FigureTexts,
    times: Seq<i64>,
    i: int,
)
    requires
        are_emails_of(mails, email, alert, figures, times),
        0 <= i < email.to@.len(),
    ensures
        mails.len() == email.to@.len(),
        times.len() == email.to@.len(),
        !is_mailbox(email.from@) ==> mails[i] == Err::<Vec<u8>, EmailError>(EmailError::BadSender),
        is_mailbox(email.from@) && !is_mailbox(email.to@[i]@) ==> mails[i] == Err::<
            Vec<u8>,
            EmailError,
        >(EmailError::BadRecipient),
        is_mailbox(email.from@) && is_mailbox(email.to@[i]@) && 0 <= times[i] < 253402300800 ==> {
            let made = composed_email(
                email.from@,
                email.to@[i]@,
                subject_text(alert, figures),
                body_text(alert, figures),
                times[i] as u64,
            );
            &&& made matches Some(bytes) ==> mails[i] is Ok && mails[i]->Ok_0@ == bytes
            &&& made is None ==> mails[i] == Err::<Vec<u8>, EmailError>(EmailError::Build)
        },
{
    assert(mails[i] is Ok || mails[i] is Err);
}

/// The present date of a mail is one that the clock gave: between mailboxes a mail is
/// out of date only where the clock itself stands past the year 9999.
pub proof fn only_the_clock_can_misdate_a_mail(
    mails: Seq<Result<Vec<u8>, EmailError>>,
    email: EmailConfig,
    alert: FiredAlert,
    figures: FigureTexts,
    i: int,
)
    requires
        exists|times: Seq<i64>|
            {
                &&& #[trigger] are_emails_of(mails, email, alert, figures, times)
                &&& forall|k: int|
                    0 <= k < times.len() ==> clock_gave(#[trigger] times[k]) && times[k] >= 0
            },
        0 <= i < email.to@.len(),
    ensures
        mails.len() == email.to@.len(),
        mails[i] == Err::<Vec<u8>, EmailError>(EmailError::BadDate) ==> exists|now: i64| #[trigger]
            clock_gave(now) && now >= 253402300800,
{
    let times = choose|times: Seq<i64>|
        {
            &&& #[trigger] are_emails_of(mails, email, alert, figures, times)
            &&& forall|k: int|
                0 <= k < times.len() ==> clock_gave(#[trigger] times[k]) && times[k] >= 0
        };
    every_recipient_is_told(mails, email, alert, figures, times, i);
    assert(clock_gave(times[i]));
}

} // verus!
