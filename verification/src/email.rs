//! The mail that tells of an alert.

use vstd::prelude::*;

use crate::clock::unix_secs;
use crate::config::EmailConfig;
#[allow(unused_imports)]
use crate::reading::clock_gave;
use crate::text::{decimal, signed_decimal};
#[allow(unused_imports)]
use crate::text::{decimal_text, signed_text};
use crate::types::FiredAlert;

verus! {

/// The first second after the year 9999, from which on a mail cannot be dated.
pub const DATES_END: u64 = 253402300800;

/// An alert's floating-point figures as the caller writes them.
#[derive(Debug)]
pub struct FigureTexts {
    /// The reading in its shortest form.
    pub value: String,
    /// The reading with four decimals.
    pub value_rounded: String,
    /// The threshold in its shortest form.
    pub threshold: String,
}

/// Why a mail could not be made.
#[derive(Clone, Copy, Debug, PartialEq, Eq, Structural)]
pub enum EmailError {
    /// The sender is no mailbox.
    BadSender,
    /// The recipient is no mailbox.
    BadRecipient,
    /// The time cannot stand in a mail.
    BadDate,
    /// The mail could not be put together.
    Build,
}

/// `lettre::error::Error`, as an opaque type.
#[verifier::external_type_specification]
#[verifier::external_body]
pub struct ExMessageError(lettre::error::Error);

/// Whether a text is a mailbox: an address, or a name and an address in angle
/// brackets.
pub uninterp spec fn is_mailbox(text: Seq<char>) -> bool;

/// The mail made of the parts given, as it goes over the wire, or nothing where
/// the parts do not make one.
pub uninterp spec fn composed_email(
    from: Seq<char>,
    to: Seq<char>,
    subject: Seq<char>,
    body: Seq<char>,
    date_secs: u64,
) -> Option<Seq<u8>>;

/// `str::parse` for `lettre::message::Mailbox`: whether it accepts the text. The
/// grammar of mailboxes is the crate's and is not spelt out.
#[verifier::external_body]
fn parses_as_mailbox(text: &str) -> (accepted: bool)
    ensures
        accepted == is_mailbox(text@),
{
    text.parse::<lettre::message::Mailbox>().is_ok()
}

/// `lettre::Message::builder` with its `from`, `to`, `subject`, `header`, `date` and
/// `body`, `Headers::remove` and `Headers::set`, which move the date behind the other
/// headers, where the builder puts a date of its own, and `Message::formatted`: the
/// bytes of a plain-text mail are settled by its parts. How they are encoded is the
/// crate's and is not spelt out. The crate panics on a date outside the years 1970 to
/// 9999.
#[verifier::external_body]
fn compose(from: &str, to: &str, subject: &str, body: &str, date_secs: u64) -> (made: Result<
    Vec<u8>,
    lettre::error::Error,
>)
    requires
        is_mailbox(from@),
        is_mailbox(to@),
        date_secs < DATES_END,
    ensures
        (match made {
            Ok(bytes) => composed_email(from@, to@, subject@, body@, date_secs) == Some(bytes@),
            Err(_) => composed_email(from@, to@, subject@, body@, date_secs) is None,
        }),
{
    let at = std::time::UNIX_EPOCH + std::time::Duration::from_secs(date_secs);
    let mut message = lettre::Message::builder()
        .from(from.parse().unwrap())
        .to(to.parse().unwrap())
        .subject(subject)
        .header(lettre::message::header::ContentType::TEXT_PLAIN)
        .date(at)
        .body(body.to_owned())?;
    message.headers_mut().remove::<lettre::message::header::Date>();
    message.headers_mut().set(lettre::message::header::Date::new(at));
    Ok(message.formatted())
}

/// The subject of the mail on an alert.
pub open spec fn subject_text(alert: FiredAlert, figures: FigureTexts) -> Seq<char> {
    "[ProgressBox] ALERT — "@ + alert.metric@ + " "@ + alert.operator@ + " "@ + figures.threshold@
        + " "@ + figures.value@ + " on "@ + alert.broker_id@
}

/// The body of the mail on an alert.
pub open spec fn body_text(alert: FiredAlert, figures: FigureTexts) -> Seq<char> {
    "ProgressBox Alert\n─────────────────\nBroker:    "@ + alert.broker_id@ + "\nMetric:    "@
        + alert.metric@ + "\nCondition: "@ + alert.metric@ + " "@ + alert.operator@ + " "@
        + figures.threshold@ + "\nValue:     "@ + figures.value_rounded@ + "\nTime:      "@
        + signed_text(alert.fired_at as int) + " (Unix)\nAlert ID:  "@ + decimal_text(
        alert.id as nat,
    )
}

/// What stands in the way of a mail, given whether the sender and the recipient are
/// mailboxes: the sender is looked at before the recipient, and the date last.
pub open spec fn obstacle(sender_ok: bool, recipient_ok: bool, date_secs: u64) -> Option<
    EmailError,
> {
    if !sender_ok {
        Some(EmailError::BadSender)
    } else if !recipient_ok {
        Some(EmailError::BadRecipient)
    } else if date_secs >= DATES_END {
        Some(EmailError::BadDate)
    } else {
        None
    }
}

/// What comes of making a mail.
pub open spec fn email_outcome(
    from: Seq<char>,
    to: Seq<char>,
    subject: Seq<char>,
    body: Seq<char>,
    date_secs: u64,
) -> Result<Seq<u8>, EmailError> {
    match obstacle(is_mailbox(from), is_mailbox(to), date_secs) {
        Some(error) => Err(error),
        None => match composed_email(from, to, subject, body, date_secs) {
            Some(bytes) => Ok(bytes),
            None => Err(EmailError::Build),
        },
    }
}

/// Says what stands in the way of a mail, given whether the sender and the recipient
/// are mailboxes.
pub fn mail_obstacle(sender_ok: bool, recipient_ok: bool, date_secs: u64) -> (r: Option<EmailError>)
    ensures
        r == obstacle(sender_ok, recipient_ok, date_secs),
{
    if !sender_ok {
        Some(EmailError::BadSender)
    } else if !recipient_ok {
        Some(EmailError::BadRecipient)
    } else if date_secs >= DATES_END {
        Some(EmailError::BadDate)
    } else {
        None
    }
}

/// Writes the subject of the mail on an alert.
pub fn alert_subject(alert: &FiredAlert, figures: &FigureTexts) -> (r: String)
    ensures
        r@ == subject_text(*alert, *figures),
{
    let mut text = "[ProgressBox] ALERT — ".to_owned();
    text.append(alert.metric.as_str());
    text.append(" ");
    text.append(alert.operator.as_str());
    text.append(" ");
    text.append(figures.threshold.as_str());
    text.append(" ");
    text.append(figures.value.as_str());
    text.append(" on ");
    text.append(alert.broker_id.as_str());
    text
}

/// Writes the body of the mail on an alert.
pub fn alert_body(alert: &FiredAlert, figures: &FigureTexts) -> (r: String)
    ensures
        r@ == body_text(*alert, *figures),
{
    let mut text = "ProgressBox Alert\n─────────────────\nBroker:    ".to_owned();
    text.append(alert.broker_id.as_str());
    text.append("\nMetric:    ");
    text.append(alert.metric.as_str());
    text.append("\nCondition: ");
    text.append(alert.metric.as_str());
    text.append(" ");
    text.append(alert.operator.as_str());
    text.append(" ");
    text.append(figures.threshold.as_str());
    text.append("\nValue:     ");
    text.append(figures.value_rounded.as_str());
    text.append("\nTime:      ");
    let fired_at = signed_decimal(alert.fired_at);
    text.append(fired_at.as_str());
    text.append(" (Unix)\nAlert ID:  ");
    let id = decimal(alert.id);
    text.append(id.as_str());
    text
}

/// Makes the mail that tells `recipient` of an alert, dated `date_secs` in Unix
/// time, in the form in which it goes over the wire.
pub fn alert_email(
    email: &EmailConfig,
    recipient: &str,
    alert: &FiredAlert,
    figures: &FigureTexts,
    date_secs: u64,
) -> (r: Result<Vec<u8>, EmailError>)
    ensures
        (match r {
            Ok(bytes) => Ok(bytes@),
            Err(error) => Err(error),
        }) == email_outcome(
            email.from@,
            recipient@,
            subject_text(*alert, *figures),
            body_text(*alert, *figures),
            date_secs,
        ),
{
    let sender_ok = parses_as_mailbox(email.from.as_str());
    let recipient_ok = parses_as_mailbox(recipient);
    match mail_obstacle(sender_ok, recipient_ok, date_secs) {
        Some(error) => {
            return Err(error);
        },
        None => {},
    }
    let subject = alert_subject(alert, figures);
    let body = alert_body(alert, figures);
    match compose(email.from.as_str(), recipient, subject.as_str(), body.as_str(), date_secs) {
        Ok(bytes) => Ok(bytes),
        Err(_) => Err(EmailError::Build),
    }
}

/// The date of a mail that is made at the Unix time `now`: a time before 1970 cannot
/// stand in a mail, and counts as one that is out of range.
pub open spec fn date_at(now: i64) -> u64 {
    if now < 0 {
        DATES_END
    } else {
        now as u64
    }
}

/// The date of a mail that is made at the Unix time `now`.
pub fn mail_date(now: i64) -> (r: u64)
    ensures
        r == date_at(now),
{
    if now < 0 {
        DATES_END
    } else {
        now as u64
    }
}

/// What comes of making the mails on an alert: one for each recipient, in the order in
/// which they are configured, each dated with its own of the Unix times `times`.
pub open spec fn are_emails_of(
    mails: Seq<Result<Vec<u8>, EmailError>>,
    email: EmailConfig,
    alert: FiredAlert,
    figures: FigureTexts,
    times: Seq<i64>,
) -> bool {
    &&& mails.len() == email.to@.len()
    &&& times.len() == email.to@.len()
    &&& forall|i: int|
        0 <= i < mails.len() ==> (match #[trigger] mails[i] {
            Ok(bytes) => Ok(bytes@),
            Err(error) => Err(error),
        }) == email_outcome(
            email.from@,
            email.to@[i]@,
            subject_text(alert, figures),
            body_text(alert, figures),
            date_at(times[i]),
        )
}

/// Makes the mails that tell every recipient of an alert: one outcome for each
/// recipient, in order. The mail at each place is dated with the Unix time at the same
/// place of `times`.
pub fn alert_emails(
    email: &EmailConfig,
    alert: &FiredAlert,
    figures: &FigureTexts,
    times: &Vec<i64>,
) -> (r: Vec<Result<Vec<u8>, EmailError>>)
    requires
        times@.len() == email.to@.len(),
    ensures
        are_emails_of(r@, *email, *alert, *figures, times@),
{
    let mut mails: Vec<Result<Vec<u8>, EmailError>> = Vec::new();
    let n: usize = email.to.len();
    let mut i: usize = 0;
    while i < n
        invariant
            n == email.to@.len(),
            n == times@.len(),
            i <= n,
            mails@.len() == i,
            forall|k: int|
                0 <= k < i ==> (match #[trigger] mails@[k] {
                    Ok(bytes) => Ok(bytes@),
                    Err(error) => Err(error),
                }) == email_outcome(
                    email.from@,
                    email.to@[k]@,
                    subject_text(*alert, *figures),
                    body_text(*alert, *figures),
                    date_at(times@[k]),
                ),
        decreases n - i,
    {
        let date_secs: u64 = mail_date(times[i]);
        mails.push(alert_email(email, email.to[i].as_str(), alert, figures, date_secs));
        i += 1;
    }
    mails
}

/// Makes the mails that tell every recipient of an alert, each dated with the present
/// time as it is made.
pub fn alert_emails_now(email: &EmailConfig, alert: &FiredAlert, figures: &FigureTexts) -> (r: Vec<
    Result<Vec<u8>, EmailError>,
>)
    ensures
        exists|times: Seq<i64>|
            {
                &&& #[trigger] are_emails_of(r@, *email, *alert, *figures, times)
                &&& forall|i: int|
                    0 <= i < times.len() ==> clock_gave(#[trigger] times[i]) && times[i] >= 0
            },
{
    let mut mails: Vec<Result<Vec<u8>, EmailError>> = Vec::new();
    let ghost mut times: Seq<i64> = Seq::empty();
    let n: usize = email.to.len();
    let mut i: usize = 0;
    while i < n
        invariant
            n == email.to@.len(),
            i <= n,
            mails@.len() == i,
            times.len() == i,
            forall|k: int| 0 <= k < i ==> clock_gave(#[trigger] times[k]) && times[k] >= 0,
            forall|k: int|
                0 <= k < i ==> (match #[trigger] mails@[k] {
                    Ok(bytes) => Ok(bytes@),
                    Err(error) => Err(error),
                }) == email_outcome(
                    email.from@,
                    email.to@[k]@,
                    subject_text(*alert, *figures),
                    body_text(*alert, *figures),
                    date_at(times[k]),
                ),
        decreases n - i,
    {
        let now: i64 = unix_secs();
        let mail = alert_email(email, email.to[i].as_str(), alert, figures, mail_date(now));
        proof {
            times = times.push(now);
        }
        mails.push(mail);
        i += 1;
    }
    assert(are_emails_of(mails@, *email, *alert, *figures, times));
    mails
}

} // verus!
