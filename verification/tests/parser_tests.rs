use mcp_caldav::ics::parser::{parse_event_details, parse_events};

const ICS_FULL_FIELDS: &str = "BEGIN:VCALENDAR\r\n\
VERSION:2.0\r\n\
BEGIN:VEVENT\r\n\
UID:abc-123\r\n\
SUMMARY:Weekly Sync\r\n\
DESCRIPTION:Discuss roadmap and dragonfruit plans\r\n\
LOCATION:Cafe Aurelius\r\n\
DTSTART:20260503T140000Z\r\n\
DTEND:20260503T150000Z\r\n\
END:VEVENT\r\n\
END:VCALENDAR\r\n";

#[test]
fn icalendar_path_captures_description_and_location() {
    let events = parse_events(ICS_FULL_FIELDS, "https://example/cal/abc.ics").unwrap();
    assert_eq!(events.len(), 1);
    let e = &events[0];
    assert_eq!(e.summary, "Weekly Sync");
    assert_eq!(e.location.as_deref(), Some("Cafe Aurelius"));
    assert_eq!(
        e.description.as_deref(),
        Some("Discuss roadmap and dragonfruit plans")
    );
    // Searching by a word of the description alone finds the event.
    assert!(e.matches_query("dragonfruit"));
    assert!(e.matches_query("aurelius"));
}

#[test]
fn icalendar_path_resolves_dtstart_tz_from_tzid() {
    // An event with an explicit TZID surfaces the resolved zone so that
    // recurrence expansion can iterate in local time across DST.
    let ics = "BEGIN:VCALENDAR\r\n\
VERSION:2.0\r\n\
BEGIN:VEVENT\r\n\
UID:abc-123\r\n\
SUMMARY:NY Sync\r\n\
DTSTART;TZID=America/New_York:20260105T090000\r\n\
DTEND;TZID=America/New_York:20260105T100000\r\n\
END:VEVENT\r\n\
END:VCALENDAR\r\n";
    let events = parse_events(ics, "https://example/cal/abc.ics").unwrap();
    assert_eq!(events.len(), 1);
    assert_eq!(
        events[0].dtstart_tz.as_ref().map(|tz| tz.name().to_string()),
        Some("America/New_York".to_string())
    );
}

#[test]
fn icalendar_path_leaves_dtstart_tz_none_for_utc_events() {
    let ics = "BEGIN:VCALENDAR\r\n\
VERSION:2.0\r\n\
BEGIN:VEVENT\r\n\
UID:abc-123\r\n\
SUMMARY:UTC event\r\n\
DTSTART:20260105T140000Z\r\n\
END:VEVENT\r\n\
END:VCALENDAR\r\n";
    let events = parse_events(ics, "https://example/cal/abc.ics").unwrap();
    assert_eq!(events.len(), 1);
    assert!(events[0].dtstart_tz.is_none());
}

#[test]
fn event_detail_local_time_uses_dtstart_tzid_when_multiple_vtimezones_present() {
    // Two VTIMEZONE blocks; the event's DTSTART references New York. The
    // local time renders in New York, never in Berlin.
    let ics = "BEGIN:VCALENDAR\r\n\
VERSION:2.0\r\n\
BEGIN:VTIMEZONE\r\n\
TZID:America/New_York\r\n\
END:VTIMEZONE\r\n\
BEGIN:VTIMEZONE\r\n\
TZID:Europe/Berlin\r\n\
END:VTIMEZONE\r\n\
BEGIN:VEVENT\r\n\
UID:abc-123\r\n\
SUMMARY:NY meeting\r\n\
DTSTART;TZID=America/New_York:20260105T090000\r\n\
DTEND;TZID=America/New_York:20260105T100000\r\n\
END:VEVENT\r\n\
END:VCALENDAR\r\n";

    let details = parse_event_details(ics, "https://example/x.ics").unwrap();
    assert_eq!(details.len(), 1);
    let local = &details[0].local_start;
    assert!(
        local.contains("America/New_York") || local.contains("EST") || local.contains("EDT"),
        "expected NY in local_start, got {local:?}"
    );
    assert!(
        !local.contains("Europe/Berlin") && !local.contains("Berlin"),
        "expected NOT to render in Berlin, got {local:?}"
    );
}

#[test]
fn icalendar_path_skips_unparseable_vevent_and_keeps_master() {
    // The override VEVENT has a DTSTART that cannot be read; only it is
    // dropped, not the whole resource.
    let ics = "BEGIN:VCALENDAR\r\n\
VERSION:2.0\r\n\
BEGIN:VEVENT\r\n\
UID:abc\r\n\
SUMMARY:Master series\r\n\
DTSTART;TZID=America/New_York:20260105T090000\r\n\
RRULE:FREQ=WEEKLY;BYDAY=MO\r\n\
END:VEVENT\r\n\
BEGIN:VEVENT\r\n\
UID:abc\r\n\
RECURRENCE-ID;TZID=America/New_York:20260420T090000\r\n\
DTSTART:notadate\r\n\
SUMMARY:Override\r\n\
END:VEVENT\r\n\
END:VCALENDAR\r\n";

    let events = parse_events(ics, "https://example/cal/abc.ics").unwrap();
    let masters: Vec<_> = events.iter().filter(|e| e.is_recurring).collect();
    assert_eq!(masters.len(), 1, "master must survive override parse failure");
    assert_eq!(masters[0].summary, "Master series");
}

#[test]
fn fallback_path_skips_unparseable_vevent_and_keeps_master() {
    // Without the VCALENDAR wrapper the fallback layer reads the text; the
    // master survives the unreadable override.
    let ics = "BEGIN:VEVENT\r\n\
UID:abc\r\n\
SUMMARY:Master series\r\n\
DTSTART:20260105T140000Z\r\n\
RRULE:FREQ=WEEKLY;BYDAY=MO\r\n\
END:VEVENT\r\n\
BEGIN:VEVENT\r\n\
UID:abc\r\n\
RECURRENCE-ID:20260420T140000Z\r\n\
DTSTART:notadate\r\n\
SUMMARY:Override\r\n\
END:VEVENT\r\n";

    let events = parse_events(ics, "https://example/cal/abc.ics").unwrap();
    let masters: Vec<_> = events.iter().filter(|e| e.is_recurring).collect();
    assert_eq!(masters.len(), 1, "master must survive override parse failure");
    assert_eq!(masters[0].summary, "Master series");
}

#[test]
fn fallback_path_captures_description_and_location() {
    // Missing BEGIN:VCALENDAR/VERSION/END:VCALENDAR: the icalendar layer
    // fails and the fallback reads the event.
    let malformed = "BEGIN:VEVENT\r\n\
UID:abc-123\r\n\
SUMMARY:Weekly Sync\r\n\
DESCRIPTION:Discuss roadmap and dragonfruit plans\r\n\
LOCATION:Cafe Aurelius\r\n\
DTSTART:20260503T140000Z\r\n\
END:VEVENT\r\n";
    let events = parse_events(malformed, "https://example/cal/abc.ics").unwrap();
    assert_eq!(events.len(), 1);
    let e = &events[0];
    assert_eq!(e.location.as_deref(), Some("Cafe Aurelius"));
    assert_eq!(
        e.description.as_deref(),
        Some("Discuss roadmap and dragonfruit plans")
    );
}
