use hep_outage_checker::filter::filter_outages;
use hep_outage_checker::OutageRecord;

fn record(location: &str, street: &str) -> OutageRecord {
    OutageRecord {
        date: String::from("d"),
        location: String::from(location),
        street: String::from(street),
        time: String::new(),
        note: String::new(),
    }
}

#[test]
fn filter_matches_location_and_street_case_insensitively() {
    let records = vec![
        record("Somewhere", "123 Main Street"),
        record("Mainview District", "Side Road"),
        record("Elsewhere", "Back Alley"),
    ];
    let kept = filter_outages(&records, &Some(String::from("MAIN")));
    assert_eq!(kept.len(), 2);
    assert_eq!(kept[0].street, "123 Main Street");
    assert_eq!(kept[1].location, "Mainview District");
}

#[test]
fn filter_excludes_records_without_the_substring() {
    let records = vec![record("Elsewhere", "Back Alley")];
    let kept = filter_outages(&records, &Some(String::from("main")));
    assert_eq!(kept.len(), 0);
}

#[test]
fn no_filter_returns_all_records_in_order() {
    let records = vec![record("B", "1"), record("A", "2"), record("C", "3")];
    let kept = filter_outages(&records, &None);
    assert_eq!(kept.len(), 3);
    assert_eq!(kept[0].location, "B");
    assert_eq!(kept[1].location, "A");
    assert_eq!(kept[2].location, "C");
}

#[test]
fn empty_filter_matches_everything() {
    let records = vec![record("B", "1"), record("A", "2")];
    let kept = filter_outages(&records, &Some(String::new()));
    assert_eq!(kept.len(), 2);
    assert_eq!(kept[0].location, "B");
    assert_eq!(kept[1].location, "A");
}

#[test]
fn filter_does_not_look_at_time_or_note() {
    let mut r = record("A", "B");
    r.time = String::from("main hours");
    r.note = String::from("main note");
    let kept = filter_outages(&vec![r], &Some(String::from("main")));
    assert_eq!(kept.len(), 0);
}
