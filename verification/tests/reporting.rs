use hep_outage_checker::report::{console_report, email_body, email_subject, outage_url, push_decimal};
use hep_outage_checker::OutageRecord;

fn record(date: &str, location: &str, street: &str, time: &str, note: &str) -> OutageRecord {
    OutageRecord {
        date: String::from(date),
        location: String::from(location),
        street: String::from(street),
        time: String::from(time),
        note: String::from(note),
    }
}

#[test]
fn url_is_composed_exactly() {
    let url = outage_url("01.02.2026", "19", "5");
    assert_eq!(
        url,
        "https://www.hep.hr/ods/bez-struje/19?dp=19&el=5&datum=01.02.2026"
    );
}

#[test]
fn decimal_rendering_is_exact() {
    let mut s = String::from("n=");
    push_decimal(&mut s, 0);
    assert_eq!(s, "n=0");
    let mut t = String::new();
    push_decimal(&mut t, 12034);
    assert_eq!(t, "12034");
    let mut u = String::new();
    push_decimal(&mut u, 7);
    assert_eq!(u, "7");
}

#[test]
fn email_body_lists_each_record_in_a_numbered_section() {
    let records = vec![
        record("11.10.2026", "Zagreb", "Ilica 5", "08:00 - 12:00", "works"),
        record("12.10.2026", "Split", "Obala 3", "09:00 - 10:00", ""),
    ];
    let body = email_body(&records, "19", "5");
    let expected = String::from("⚡ PLANNED POWER OUTAGES IN YOUR AREA ⚡\n\n")
        + "Found 2 scheduled outage(s):\n\n"
        + "━━━ OUTAGE 1 ━━━\n"
        + "📅 Date: 11.10.2026\n"
        + "📍 Location: Zagreb\n"
        + "🛣️  Street: Ilica 5\n"
        + "⏰ Time: 08:00 - 12:00\n"
        + "📝 Note: works\n"
        + "\n"
        + "━━━ OUTAGE 2 ━━━\n"
        + "📅 Date: 12.10.2026\n"
        + "📍 Location: Split\n"
        + "🛣️  Street: Obala 3\n"
        + "⏰ Time: 09:00 - 10:00\n"
        + "\n"
        + "\n---\n"
        + "This is an automated notification from HEP Outage Checker\n"
        + "Source: https://www.hep.hr/ods/bez-struje/19?dp=19&el=5\n";
    assert_eq!(body, expected);
}

#[test]
fn email_subject_names_the_filter() {
    assert_eq!(
        email_subject(&Some(String::from("Zagreb"))),
        "⚡ Power Outage Alert - Zagreb"
    );
    assert_eq!(email_subject(&None), "⚡ Power Outage Alert");
}

#[test]
fn console_report_without_records_says_none_found() {
    let report = console_report(&Vec::new(), "19", "5");
    assert!(report.contains("✅ No outages found in the next 7 days."));
    assert!(report.contains("DRY RUN - POWER OUTAGE DATA (NO EMAIL SENT)"));
    assert!(!report.contains("OUTAGE 1"));
}

#[test]
fn console_report_lists_records_and_source() {
    let records = vec![record("11.10.2026", "Zagreb", "Ilica 5", "08:00 - 12:00", "note here")];
    let report = console_report(&records, "19", "5");
    assert!(report.contains("Found 1 scheduled outage(s):"));
    assert!(report.contains("━━━━━━━━━━━━━━━━━ OUTAGE 1 ━━━━━━━━━━━━━━━━━\n"));
    assert!(report.contains("📅 Date:     11.10.2026\n"));
    assert!(report.contains("📍 Location: Zagreb\n"));
    assert!(report.contains("🛣️  Street:   Ilica 5\n"));
    assert!(report.contains("⏰ Time:     08:00 - 12:00\n"));
    assert!(report.contains("📝 Note:     note here\n"));
    assert!(report.contains("Source: https://www.hep.hr/ods/bez-struje/19?dp=19&el=5\n"));
}

#[test]
fn console_report_omits_an_empty_note() {
    let records = vec![record("d", "A", "B", "t", "")];
    let report = console_report(&records, "1", "2");
    assert!(!report.contains("📝 Note:"));
}
