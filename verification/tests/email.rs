use progressbox_agent::config::EmailConfig;
use progressbox_agent::email::{
    alert_body, alert_email, alert_emails, alert_emails_now, alert_subject, mail_date, mail_obstacle,
    EmailError, FigureTexts, DATES_END,
};
use progressbox_agent::types::{FiredAlert, FloatBits, Reading};

fn alert() -> FiredAlert {
    FiredAlert {
        id: 7,
        broker_id: "b1".to_string(),
        metric: "cpu_percent".to_string(),
        operator: ">".to_string(),
        value: Reading::Float(FloatBits { bits: 91.23456f64.to_bits() }),
        threshold: FloatBits { bits: 80.5f64.to_bits() },
        fired_at: 1700000000,
        acknowledged: false,
    }
}

fn figures() -> FigureTexts {
    FigureTexts {
        value: format!("{}", 91.23456f64),
        value_rounded: format!("{:.4}", 91.23456f64),
        threshold: format!("{}", 80.5f64),
    }
}

fn config(from: &str) -> EmailConfig {
    EmailConfig {
        smtp_host: "smtp.example.org".to_string(),
        smtp_port: 587,
        from: from.to_string(),
        to: vec!["ops@example.org".to_string()],
        username: "user".to_string(),
        password: "pass".to_string(),
    }
}

#[test]
fn subject_names_the_condition_and_the_broker() {
    assert_eq!(
        alert_subject(&alert(), &figures()),
        "[ProgressBox] ALERT — cpu_percent > 80.5 91.23456 on b1"
    );
}

#[test]
fn body_lists_the_particulars() {
    assert_eq!(
        alert_body(&alert(), &figures()),
        "ProgressBox Alert\n\
         ─────────────────\n\
         Broker:    b1\n\
         Metric:    cpu_percent\n\
         Condition: cpu_percent > 80.5\n\
         Value:     91.2346\n\
         Time:      1700000000 (Unix)\n\
         Alert ID:  7"
    );
    let early = FiredAlert { fired_at: -5, ..alert() };
    assert!(alert_body(&early, &figures()).contains("Time:      -5 (Unix)\n"));
}

#[test]
fn mail_carries_its_parts() {
    let sender = config("Agent <agent@example.org>");
    let bytes = alert_email(&sender, "ops@example.org", &alert(), &figures(), 784111777).unwrap();
    let text = String::from_utf8(bytes.clone()).unwrap();
    assert!(text.contains("From: Agent <agent@example.org>\r\n"));
    assert!(text.contains("To: ops@example.org\r\n"));
    assert!(text.contains("Subject: "));
    assert!(text.contains("Date: Sun, 06 Nov 1994 08:49:37 +0000\r\n"));
    assert!(text.contains("Content-Type: text/plain; charset=utf-8\r\n"));
    let again = alert_email(&sender, "ops@example.org", &alert(), &figures(), 784111777).unwrap();
    assert_eq!(bytes, again);
}

fn built_by_the_mail_library() -> String {
    let message = lettre::Message::builder()
        .from("agent@example.org".parse().unwrap())
        .to("ops@example.org".parse().unwrap())
        .subject(alert_subject(&alert(), &figures()))
        .header(lettre::message::header::ContentType::TEXT_PLAIN)
        .body(alert_body(&alert(), &figures()))
        .unwrap();
    String::from_utf8(message.formatted()).unwrap()
}

#[test]
fn mail_agrees_with_the_mail_library() {
    let expected = built_by_the_mail_library();
    let (head, tail) = expected.split_once("Date: ").unwrap();
    let (_present, body) = tail.split_once("\r\n").unwrap();
    let bytes =
        alert_email(&config("agent@example.org"), "ops@example.org", &alert(), &figures(), 784111777)
            .unwrap();
    assert_eq!(
        String::from_utf8(bytes).unwrap(),
        format!("{}Date: Sun, 06 Nov 1994 08:49:37 +0000\r\n{}", head, body)
    );
    // The date is the last of the headers.
    assert!(body.starts_with("\r\n"));
}

#[test]
fn obstacles_are_looked_at_in_order() {
    assert_eq!(mail_obstacle(false, false, DATES_END), Some(EmailError::BadSender));
    assert_eq!(mail_obstacle(true, false, DATES_END), Some(EmailError::BadRecipient));
    assert_eq!(mail_obstacle(true, true, DATES_END), Some(EmailError::BadDate));
    assert_eq!(mail_obstacle(true, true, DATES_END - 1), None);
}

#[test]
fn bad_mailboxes_are_told_apart() {
    let send = |from: &str, to: &str| alert_email(&config(from), to, &alert(), &figures(), 0);
    assert_eq!(send("nobody", "ops@example.org"), Err(EmailError::BadSender));
    assert_eq!(send("", "nobody"), Err(EmailError::BadSender));
    assert_eq!(send("agent@example.org", "nobody"), Err(EmailError::BadRecipient));
    assert!(send("agent@example.org", "ops@example.org").is_ok());
}

#[test]
fn mail_cannot_be_dated_after_the_year_9999() {
    let send = |date| alert_email(&config("a@example.org"), "b@example.org", &alert(), &figures(), date);
    assert_eq!(send(DATES_END), Err(EmailError::BadDate));
    assert_eq!(send(u64::MAX), Err(EmailError::BadDate));
    let last = String::from_utf8(send(DATES_END - 1).unwrap()).unwrap();
    assert!(last.contains("Date: Fri, 31 Dec 9999 23:59:59 +0000\r\n"));
}

#[test]
fn a_mail_is_made_for_every_recipient() {
    let to = vec![
        "ops@example.org".to_string(),
        "nobody".to_string(),
        "Duty <duty@example.org>".to_string(),
    ];
    let email = EmailConfig { to: to.clone(), ..config("agent@example.org") };
    let mails = alert_emails(&email, &alert(), &figures(), &vec![784111777, 0, 784111778]);
    assert_eq!(mails.len(), 3);
    let dates = [784111777u64, 0, 784111778];
    for i in 0..3 {
        assert_eq!(mails[i], alert_email(&email, &to[i], &alert(), &figures(), dates[i]));
    }
    assert!(mails[0].is_ok());
    assert_eq!(mails[1], Err(EmailError::BadRecipient));
    let last = String::from_utf8(mails[2].clone().unwrap()).unwrap();
    assert!(last.contains("To: Duty <duty@example.org>\r\n"));
    assert!(last.contains("Date: Sun, 06 Nov 1994 08:49:38 +0000\r\n"));
    let nobody = EmailConfig { to: vec![], ..config("nobody") };
    assert!(alert_emails(&nobody, &alert(), &figures(), &vec![]).is_empty());
    let early = EmailConfig { to: vec!["ops@example.org".to_string()], ..config("agent@example.org") };
    assert_eq!(
        alert_emails(&early, &alert(), &figures(), &vec![-1]),
        vec![Err(EmailError::BadDate)]
    );
}

#[test]
fn times_before_1970_cannot_date_a_mail() {
    assert_eq!(mail_date(0), 0);
    assert_eq!(mail_date(784111777), 784111777);
    assert_eq!(mail_date(i64::MAX), 9223372036854775807);
    assert_eq!(mail_date(-1), DATES_END);
    assert_eq!(mail_date(i64::MIN), DATES_END);
}

#[test]
fn mails_are_dated_with_the_present_time() {
    let email = EmailConfig {
        to: vec!["ops@example.org".to_string(), "nobody".to_string()],
        ..config("agent@example.org")
    };
    let mails = alert_emails_now(&email, &alert(), &figures());
    assert_eq!(mails.len(), 2);
    let text = String::from_utf8(mails[0].clone().unwrap()).unwrap();
    assert!(text.contains("Date: "));
    assert!(!text.contains("1970"));
    assert_eq!(mails[1], Err(EmailError::BadRecipient));
}
