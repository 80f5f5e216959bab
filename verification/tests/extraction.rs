use hep_outage_checker::extract::extract_records;
use hep_outage_checker::text::split_trimmed_lines;
use hep_outage_checker::OutageRecord;

fn lines(texts: &[&str]) -> Vec<String> {
    texts.iter().map(|t| String::from(*t)).collect()
}

fn fields(r: &OutageRecord) -> (String, String, String, String, String) {
    (
        r.date.clone(),
        r.location.clone(),
        r.street.clone(),
        r.time.clone(),
        r.note.clone(),
    )
}

#[test]
fn two_complete_blocks_round_trip() {
    let input = lines(&[
        "Mjesto: Zagreb",
        "Ulica: Ilica 5",
        "Očekivano trajanje: 08:00 - 12:00",
        "Napomena: crews on site",
        "Mjesto: Split",
        "Ulica: Obala 3",
        "Očekivano trajanje: 09:30 - 10:30",
        "Napomena: short works",
    ]);
    let records = extract_records("11.10.2026", &input);
    assert_eq!(records.len(), 2);
    assert_eq!(
        fields(&records[0]),
        (
            String::from("11.10.2026"),
            String::from("Zagreb"),
            String::from("Ilica 5"),
            String::from("08:00 - 12:00"),
            String::from("crews on site"),
        )
    );
    assert_eq!(
        fields(&records[1]),
        (
            String::from("11.10.2026"),
            String::from("Split"),
            String::from("Obala 3"),
            String::from("09:30 - 10:30"),
            String::from("short works"),
        )
    );
}

#[test]
fn trailing_block_is_sealed_at_end_of_stream() {
    let input = lines(&["some preamble", "Mjesto: Rijeka", "Ulica: Korzo 1"]);
    let records = extract_records("d", &input);
    assert_eq!(records.len(), 1);
    assert_eq!(records[0].location, "Rijeka");
    assert_eq!(records[0].street, "Korzo 1");
    assert_eq!(records[0].time, "");
    assert_eq!(records[0].note, "");
}

#[test]
fn wrapped_time_with_hyphen_is_taken_verbatim() {
    let input = lines(&["Mjesto: Osijek", "Očekivano trajanje:", "08:00 - 10:00"]);
    let records = extract_records("d", &input);
    assert_eq!(records.len(), 1);
    assert_eq!(records[0].time, "08:00 - 10:00");
}

#[test]
fn wrapped_time_without_hyphen_is_dropped() {
    let input = lines(&["Mjesto: Osijek", "Očekivano trajanje:", "all morning"]);
    let records = extract_records("d", &input);
    assert_eq!(records.len(), 1);
    assert_eq!(records[0].time, "");
    assert_eq!(records[0].street, "");
    assert_eq!(records[0].note, "");
    assert_eq!(records[0].location, "Osijek");
}

#[test]
fn empty_line_sequence_yields_no_records() {
    let records = extract_records("d", &Vec::new());
    assert_eq!(records.len(), 0);
}

#[test]
fn page_with_no_markers_yields_no_records() {
    let input = lines(&["hello", "nothing to see", "", "09:00 - 11:00"]);
    let records = extract_records("d", &input);
    assert_eq!(records.len(), 0);
}

#[test]
fn consecutive_location_markers_yield_two_bare_records() {
    let input = lines(&["Mjesto: A", "Mjesto: B"]);
    let records = extract_records("d", &input);
    assert_eq!(records.len(), 2);
    assert_eq!(
        fields(&records[0]),
        (
            String::from("d"),
            String::from("A"),
            String::new(),
            String::new(),
            String::new(),
        )
    );
    assert_eq!(
        fields(&records[1]),
        (
            String::from("d"),
            String::from("B"),
            String::new(),
            String::new(),
            String::new(),
        )
    );
}

#[test]
fn repeated_field_marker_overwrites() {
    let input = lines(&["Mjesto: A", "Ulica: First", "Ulica: Second"]);
    let records = extract_records("d", &input);
    assert_eq!(records.len(), 1);
    assert_eq!(records[0].street, "Second");
}

#[test]
fn field_marker_before_any_location_is_ignored() {
    let input = lines(&["Ulica: Orphan", "Napomena: stray", "Mjesto: A"]);
    let records = extract_records("d", &input);
    assert_eq!(records.len(), 1);
    assert_eq!(records[0].street, "");
    assert_eq!(records[0].note, "");
}

#[test]
fn marker_values_are_trimmed() {
    let input = lines(&["Mjesto:   Padded Town  "]);
    let records = extract_records("d", &input);
    assert_eq!(records.len(), 1);
    assert_eq!(records[0].location, "Padded Town");
}

#[test]
fn inline_time_clears_the_lookahead() {
    let input = lines(&[
        "Mjesto: A",
        "Očekivano trajanje: 07:00 - 08:00",
        "10:00 - 11:00",
    ]);
    let records = extract_records("d", &input);
    assert_eq!(records.len(), 1);
    assert_eq!(records[0].time, "07:00 - 08:00");
}

#[test]
fn split_trims_every_line() {
    let out = split_trimmed_lines("  a \n\n\tb  ");
    let expected: Vec<String> = vec![String::from("a"), String::new(), String::from("b")];
    assert_eq!(out, expected);
}

#[test]
fn split_of_empty_text_is_one_empty_line() {
    let out = split_trimmed_lines("");
    let expected: Vec<String> = vec![String::new()];
    assert_eq!(out, expected);
}
