use mcp_caldav::server::{extract_recurrence_modifiers, extract_rrule_from_ics};

#[test]
fn extract_modifiers_from_master_only_returns_exdate_and_rdate() {
    let ics = "BEGIN:VCALENDAR\r\n\
VERSION:2.0\r\n\
BEGIN:VEVENT\r\n\
UID:abc\r\n\
DTSTART:20260101T140000Z\r\n\
RRULE:FREQ=WEEKLY;BYDAY=MO\r\n\
EXDATE:20260202T140000Z\r\n\
RDATE:20260503T140000Z\r\n\
END:VEVENT\r\n\
END:VCALENDAR\r\n";

    let lines = extract_recurrence_modifiers(ics);
    assert_eq!(
        lines,
        vec![
            "EXDATE:20260202T140000Z".to_string(),
            "RDATE:20260503T140000Z".to_string(),
        ]
    );
}

#[test]
fn extract_modifiers_converts_recurrence_id_to_synthetic_exdate() {
    // Master + override: the override's RECURRENCE-ID becomes a synthetic
    // EXDATE so master expansion skips that date.
    let ics = "BEGIN:VCALENDAR\r\n\
VERSION:2.0\r\n\
BEGIN:VEVENT\r\n\
UID:abc\r\n\
DTSTART:20260101T140000Z\r\n\
RRULE:FREQ=WEEKLY;BYDAY=MO\r\n\
END:VEVENT\r\n\
BEGIN:VEVENT\r\n\
UID:abc\r\n\
RECURRENCE-ID:20260504T140000Z\r\n\
DTSTART:20260504T160000Z\r\n\
SUMMARY:Moved to 16:00\r\n\
END:VEVENT\r\n\
END:VCALENDAR\r\n";

    let lines = extract_recurrence_modifiers(ics);
    assert_eq!(lines, vec!["EXDATE:20260504T140000Z".to_string()]);
}

#[test]
fn extract_modifiers_handles_tzid_parameters() {
    let ics = "BEGIN:VCALENDAR\r\n\
VERSION:2.0\r\n\
BEGIN:VEVENT\r\n\
UID:abc\r\n\
DTSTART;TZID=America/New_York:20260101T090000\r\n\
RRULE:FREQ=WEEKLY;BYDAY=MO\r\n\
EXDATE;TZID=America/New_York:20260202T090000\r\n\
END:VEVENT\r\n\
BEGIN:VEVENT\r\n\
UID:abc\r\n\
RECURRENCE-ID;TZID=America/New_York:20260504T090000\r\n\
DTSTART;TZID=America/New_York:20260504T100000\r\n\
END:VEVENT\r\n\
END:VCALENDAR\r\n";

    let lines = extract_recurrence_modifiers(ics);
    assert_eq!(
        lines,
        vec![
            "EXDATE;TZID=America/New_York:20260202T090000".to_string(),
            "EXDATE;TZID=America/New_York:20260504T090000".to_string(),
        ]
    );
}

#[test]
fn extract_rrule_skips_vtimezone_standard_and_daylight() {
    // VTIMEZONE STANDARD/DAYLIGHT blocks carry their own RRULEs describing
    // DST transitions; only the VEVENT's RRULE may be returned.
    let ics = "BEGIN:VCALENDAR\r\n\
VERSION:2.0\r\n\
BEGIN:VTIMEZONE\r\n\
TZID:America/Toronto\r\n\
BEGIN:STANDARD\r\n\
DTSTART:19700101T000000\r\n\
RRULE:FREQ=YEARLY;BYMONTH=11;BYDAY=1SU\r\n\
TZOFFSETFROM:-0400\r\n\
TZOFFSETTO:-0500\r\n\
END:STANDARD\r\n\
BEGIN:DAYLIGHT\r\n\
DTSTART:19700101T000000\r\n\
RRULE:FREQ=YEARLY;BYMONTH=3;BYDAY=2SU\r\n\
TZOFFSETFROM:-0500\r\n\
TZOFFSETTO:-0400\r\n\
END:DAYLIGHT\r\n\
END:VTIMEZONE\r\n\
BEGIN:VEVENT\r\n\
UID:abc\r\n\
DTSTART;TZID=America/Toronto:20240602T220000\r\n\
RRULE:FREQ=WEEKLY\r\n\
SUMMARY:Ozempic\r\n\
END:VEVENT\r\n\
END:VCALENDAR\r\n";

    assert_eq!(
        extract_rrule_from_ics(ics).as_deref(),
        Some("FREQ=WEEKLY"),
        "must return the VEVENT's RRULE, not VTIMEZONE STANDARD's"
    );
}

#[test]
fn extract_rrule_returns_master_when_override_is_present() {
    // Master + RECURRENCE-ID override: master's RRULE wins.
    let ics = "BEGIN:VCALENDAR\r\n\
VERSION:2.0\r\n\
BEGIN:VEVENT\r\n\
UID:abc\r\n\
DTSTART:20260101T140000Z\r\n\
RRULE:FREQ=WEEKLY;BYDAY=MO\r\n\
END:VEVENT\r\n\
BEGIN:VEVENT\r\n\
UID:abc\r\n\
RECURRENCE-ID:20260504T140000Z\r\n\
DTSTART:20260504T160000Z\r\n\
RRULE:FREQ=DAILY\r\n\
END:VEVENT\r\n\
END:VCALENDAR\r\n";

    assert_eq!(
        extract_rrule_from_ics(ics).as_deref(),
        Some("FREQ=WEEKLY;BYDAY=MO"),
        "override RRULE must not shadow the master's"
    );
}

#[test]
fn extract_rrule_returns_none_for_non_recurring() {
    let ics = "BEGIN:VCALENDAR\r\n\
VERSION:2.0\r\n\
BEGIN:VTIMEZONE\r\n\
TZID:America/Toronto\r\n\
BEGIN:STANDARD\r\n\
RRULE:FREQ=YEARLY;BYMONTH=11;BYDAY=1SU\r\n\
END:STANDARD\r\n\
END:VTIMEZONE\r\n\
BEGIN:VEVENT\r\n\
UID:abc\r\n\
DTSTART:20260503T140000Z\r\n\
SUMMARY:One-off\r\n\
END:VEVENT\r\n\
END:VCALENDAR\r\n";

    assert!(extract_rrule_from_ics(ics).is_none());
}

#[test]
fn extract_modifiers_returns_empty_when_no_modifiers_present() {
    let ics = "BEGIN:VCALENDAR\r\n\
VERSION:2.0\r\n\
BEGIN:VEVENT\r\n\
UID:abc\r\n\
DTSTART:20260101T140000Z\r\n\
RRULE:FREQ=WEEKLY;BYDAY=MO\r\n\
END:VEVENT\r\n\
END:VCALENDAR\r\n";

    let lines = extract_recurrence_modifiers(ics);
    assert!(lines.is_empty());
}

#[test]
fn crlf_and_lf_texts_give_the_same_recurrence_data() {
    let crlf = "BEGIN:VCALENDAR\r\nBEGIN:VEVENT\r\nUID:abc\r\nRRULE:FREQ=WEEKLY\r\nEXDATE:20260202T140000Z\r\nEND:VEVENT\r\nBEGIN:VEVENT\r\nRECURRENCE-ID:20260504T140000Z\r\nEND:VEVENT\r\nEND:VCALENDAR\r\n";
    let lf = crlf.replace("\r\n", "\n");
    assert_eq!(extract_rrule_from_ics(crlf), extract_rrule_from_ics(&lf));
    assert_eq!(extract_rrule_from_ics(&lf).as_deref(), Some("FREQ=WEEKLY"));
    assert_eq!(extract_recurrence_modifiers(crlf), extract_recurrence_modifiers(&lf));
    assert_eq!(
        extract_recurrence_modifiers(&lf),
        vec!["EXDATE:20260202T140000Z".to_string(), "EXDATE:20260504T140000Z".to_string()]
    );
}
