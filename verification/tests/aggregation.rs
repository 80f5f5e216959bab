use hep_outage_checker::aggregate::{merge_outcomes, PageOutcome};
use hep_outage_checker::config::{plan_run, ConfigError, RunPlan};
use hep_outage_checker::OutageRecord;

fn record(location: &str) -> OutageRecord {
    OutageRecord {
        date: String::from("d"),
        location: String::from(location),
        street: String::new(),
        time: String::new(),
        note: String::new(),
    }
}

#[test]
fn merge_keeps_window_order_and_collects_failures() {
    let outcomes = vec![
        PageOutcome::Records(vec![record("A")]),
        PageOutcome::Failure(String::from("connection refused")),
        PageOutcome::Records(vec![record("B"), record("C")]),
        PageOutcome::Records(Vec::new()),
    ];
    let (records, failures) = merge_outcomes(&outcomes);
    assert_eq!(records.len(), 3);
    assert_eq!(records[0].location, "A");
    assert_eq!(records[1].location, "B");
    assert_eq!(records[2].location, "C");
    assert_eq!(failures, vec![String::from("connection refused")]);
}

#[test]
fn merge_of_no_outcomes_is_empty() {
    let (records, failures) = merge_outcomes(&Vec::new());
    assert_eq!(records.len(), 0);
    assert_eq!(failures.len(), 0);
}

#[test]
fn report_only_mode_needs_no_settings() {
    let plan = plan_run(true, None, None, None, None, None);
    assert!(matches!(plan, Ok(RunPlan::ReportOnly)));
}

#[test]
fn notify_mode_requires_each_setting_in_order() {
    let plan = plan_run(false, None, None, None, None, None);
    assert!(matches!(plan, Err(ConfigError::MissingToEmail)));
    let plan = plan_run(false, Some(String::from("to@x")), None, None, None, None);
    assert!(matches!(plan, Err(ConfigError::MissingFromEmail)));
    let plan = plan_run(
        false,
        Some(String::from("to@x")),
        Some(String::from("from@x")),
        None,
        None,
        None,
    );
    assert!(matches!(plan, Err(ConfigError::MissingSmtpUsername)));
    let plan = plan_run(
        false,
        Some(String::from("to@x")),
        Some(String::from("from@x")),
        Some(String::from("user")),
        None,
        None,
    );
    assert!(matches!(plan, Err(ConfigError::MissingSmtpPassword)));
}

#[test]
fn notify_mode_with_every_setting_defaults_the_server() {
    let plan = plan_run(
        false,
        Some(String::from("to@x")),
        Some(String::from("from@x")),
        Some(String::from("user")),
        Some(String::from("pass")),
        None,
    );
    match plan {
        Ok(RunPlan::Notify(s)) => {
            assert_eq!(s.to_email, "to@x");
            assert_eq!(s.from_email, "from@x");
            assert_eq!(s.smtp_username, "user");
            assert_eq!(s.smtp_password, "pass");
            assert_eq!(s.smtp_server, "smtp.gmail.com");
        }
        _ => panic!("expected a notify plan"),
    }
}

#[test]
fn notify_mode_keeps_an_explicit_server() {
    let plan = plan_run(
        false,
        Some(String::from("to@x")),
        Some(String::from("from@x")),
        Some(String::from("user")),
        Some(String::from("pass")),
        Some(String::from("relay.example")),
    );
    match plan {
        Ok(RunPlan::Notify(s)) => assert_eq!(s.smtp_server, "relay.example"),
        _ => panic!("expected a notify plan"),
    }
}
