use hep_outage_checker::page::parse_outages;

#[test]
fn parse_reads_heading_and_marker_blocks_from_markup() {
    let html = "<html><body><h3>11.10.2026</h3><div>\nMjesto: Zagreb\nUlica: Ilica 5\nOčekivano trajanje: 08:00 - 12:00\nNapomena: planned works\n</div></body></html>";
    let records = parse_outages(html);
    assert_eq!(records.len(), 1);
    assert_eq!(records[0].date, "11.10.2026");
    assert_eq!(records[0].location, "Zagreb");
    assert_eq!(records[0].street, "Ilica 5");
    assert_eq!(records[0].time, "08:00 - 12:00");
    assert_eq!(records[0].note, "planned works");
}

#[test]
fn parse_takes_the_first_heading_as_the_date_of_every_record() {
    let html = "<html><body><h3>01.01.2026</h3><h3>02.01.2026</h3><p>\nMjesto: A\nMjesto: B\n</p></body></html>";
    let records = parse_outages(html);
    assert_eq!(records.len(), 2);
    assert_eq!(records[0].date, "01.01.2026");
    assert_eq!(records[1].date, "01.01.2026");
}

#[test]
fn parse_of_a_page_without_markers_yields_nothing() {
    let records = parse_outages("<html><body><p>nothing scheduled today</p></body></html>");
    assert_eq!(records.len(), 0);
}

#[test]
fn parse_of_an_empty_document_yields_nothing() {
    let records = parse_outages("");
    assert_eq!(records.len(), 0);
}

#[test]
fn parse_handles_a_wrapped_time_value_in_markup() {
    let html = "<html><body><h3>d</h3><div>\nMjesto: Osijek\nOčekivano trajanje:\n09:00 - 11:30\n</div></body></html>";
    let records = parse_outages(html);
    assert_eq!(records.len(), 1);
    assert_eq!(records[0].time, "09:00 - 11:30");
}
