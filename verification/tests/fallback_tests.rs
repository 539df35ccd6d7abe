use mcp_caldav::error::CalDavError;
use mcp_caldav::ics::parser::{
    blocks_from_captures, details_from_components, extract_properties, extract_tzid_param,
    parse_details_fallback, parse_events, parse_events_fallback, properties_from_captures,
    summaries_from_components, tzid_from_captures, IcalEvent, IcalProperty,
};
use mcp_caldav::ics::timezone::extract_timezones;

fn cap(groups: &[Option<&str>]) -> Vec<Option<String>> {
    groups.iter().map(|g| g.map(String::from)).collect()
}

fn prop(name: &str, value: &str, tzid: Option<&str>) -> IcalProperty {
    IcalProperty { name: name.to_string(), value: value.to_string(), tzid: tzid.map(String::from) }
}

const BROKEN_ICS: &str = "BEGIN:VEVENT\n\
UID:x1\n\
SUMMARY:  Padded title  \n\
SUMMARY:Second title\n\
DTSTART;TZID=America/New_York:20260105T090000\n\
DTEND;TZID=America/New_York:20260105T100000\n\
RRULE:FREQ=WEEKLY\n\
END:VEVENT\n\
BEGIN:VEVENT\n\
UID:x2\n\
SUMMARY:No start\n\
END:VEVENT\n";

#[test]
fn properties_keep_the_first_line_of_each_name_trimmed() {
    let caps = vec![
        cap(&[Some("SUMMARY: a "), Some("SUMMARY"), Some(" a ")]),
        cap(&[Some("UID:u"), Some("UID"), Some("u")]),
        cap(&[Some("SUMMARY:b"), Some("SUMMARY"), Some("b")]),
        cap(&[Some("X"), None, Some("ignored")]),
    ];
    let props = properties_from_captures(&caps);
    let pairs: Vec<(String, String)> = props.into_iter().map(|p| (p.key, p.value)).collect();
    assert_eq!(
        pairs,
        vec![("SUMMARY".to_string(), "a".to_string()), ("UID".to_string(), "u".to_string())]
    );
}

#[test]
fn properties_of_a_block() {
    let props = extract_properties("UID:x1\nSUMMARY:  Padded title  \nSUMMARY:Second\nDTSTART;TZID=Europe/Berlin:20260105T090000\n");
    let pairs: Vec<(String, String)> = props.into_iter().map(|p| (p.key, p.value)).collect();
    assert_eq!(
        pairs,
        vec![
            ("UID".to_string(), "x1".to_string()),
            ("SUMMARY".to_string(), "Padded title".to_string()),
            ("DTSTART".to_string(), "20260105T090000".to_string()),
        ]
    );
}

#[test]
fn tzid_of_the_named_property() {
    let caps = vec![
        cap(&[Some("DTEND;TZID=Europe/Berlin"), Some("DTEND"), Some("Europe/Berlin")]),
        cap(&[Some("DTSTART;TZID=America/New_York"), Some("DTSTART"), Some("America/New_York")]),
    ];
    assert_eq!(tzid_from_captures(&caps, "DTSTART").as_deref(), Some("America/New_York"));
    assert_eq!(tzid_from_captures(&caps, "DTEND").as_deref(), Some("Europe/Berlin"));
    assert!(tzid_from_captures(&caps, "DUE").is_none());
    let block = "DTSTART;VALUE=DATE-TIME;TZID=Asia/Tokyo:20260105T090000\nDTEND:20260105T100000Z\n";
    assert_eq!(extract_tzid_param(block, "DTSTART").as_deref(), Some("Asia/Tokyo"));
    assert!(extract_tzid_param(block, "DTEND").is_none());
}

#[test]
fn blocks_are_the_first_groups_of_the_matches() {
    let caps = vec![
        cap(&[Some("BEGIN:VEVENT\nA\nEND:VEVENT"), Some("A\n")]),
        cap(&[Some("odd"), None]),
        cap(&[Some("BEGIN:VEVENT\nB\nEND:VEVENT"), Some("B\n")]),
    ];
    assert_eq!(blocks_from_captures(&caps), vec!["A\n".to_string(), "B\n".to_string()]);
}

#[test]
fn fallback_reads_blocks_and_skips_those_without_a_start() {
    let events = parse_events_fallback(BROKEN_ICS, "https://x/e.ics").unwrap();
    assert_eq!(events.len(), 1);
    let e = &events[0];
    assert_eq!(e.uid, "x1");
    assert_eq!(e.summary, "Padded title");
    assert_eq!(e.dtstart, 1767621600);
    assert_eq!(e.dtend, Some(1767625200));
    assert!(e.is_recurring);
    assert_eq!(e.url, "https://x/e.ics");
    assert_eq!(e.dtstart_tz.as_ref().map(|t| t.name()), Some("America/New_York"));

    let details = parse_details_fallback(BROKEN_ICS, "https://x/e.ics").unwrap();
    assert_eq!(details.len(), 1);
    assert_eq!(details[0].rrule.as_deref(), Some("FREQ=WEEKLY"));
    assert_eq!(details[0].local_start, "2026-01-05 09:00 America/New_York");
    assert_eq!(details[0].local_end.as_deref(), Some("2026-01-05 10:00 America/New_York"));
    assert!(details[0].attendees.is_empty());
}

#[test]
fn fallback_without_any_event_is_an_error() {
    match parse_events_fallback("BEGIN:VCALENDAR\nEND:VCALENDAR\n", "u") {
        Err(CalDavError::IcsParseError(m)) => assert_eq!(m, "no VEVENT found"),
        other => panic!("unexpected {:?}", other.map(|v| v.len())),
    }
    // Both layers fail: the fallback's error is what comes out.
    match parse_events("not an ics text", "u") {
        Err(CalDavError::IcsParseError(m)) => assert_eq!(m, "no VEVENT found"),
        other => panic!("unexpected {:?}", other.map(|v| v.len())),
    }
}

#[test]
fn components_become_events_with_defaults() {
    let comps = vec![
        None,
        Some(IcalEvent {
            properties: vec![prop("DTSTART", "20260503T140000Z", None)],
            attendees: vec![],
        }),
        Some(IcalEvent {
            properties: vec![prop("SUMMARY", "No start", None)],
            attendees: vec![],
        }),
        Some(IcalEvent {
            properties: vec![
                prop("UID", "m1", None),
                prop("SUMMARY", "Meeting", None),
                prop("DTSTART", "20260105T090000", Some("Eastern Standard Time")),
                prop("DTEND", "garbage", None),
                prop("RRULE", "FREQ=DAILY", None),
                prop("ORGANIZER", "mailto:boss@example.com", None),
            ],
            attendees: vec!["mailto:a@example.com".to_string(), "mailto:b@example.com".to_string()],
        }),
    ];
    let map = extract_timezones("");
    let events = summaries_from_components(&comps, "https://x/c.ics", &map);
    assert_eq!(events.len(), 2);
    assert_eq!(events[0].uid, "unknown");
    assert_eq!(events[0].summary, "(no title)");
    assert_eq!(events[0].dtstart, 1777816800);
    assert!(!events[0].is_recurring);
    assert_eq!(events[1].uid, "m1");
    assert_eq!(events[1].dtstart, 1767621600);
    assert_eq!(events[1].dtend, None);
    assert!(events[1].is_recurring);
    assert_eq!(events[1].dtstart_tz.as_ref().map(|t| t.name()), Some("America/New_York"));

    let details = details_from_components(&comps, "https://x/c.ics", &map);
    assert_eq!(details.len(), 2);
    assert_eq!(details[1].organizer.as_deref(), Some("mailto:boss@example.com"));
    assert_eq!(details[1].attendees.len(), 2);
    assert_eq!(details[1].local_start, "2026-01-05 09:00 America/New_York");
    assert_eq!(
        details[1].display(),
        "Event: Meeting\n  UID: m1\n  Start: 2026-01-05 09:00 America/New_York (2026-01-05 14:00 UTC)\n  Organizer: mailto:boss@example.com\n  Attendees: mailto:a@example.com, mailto:b@example.com\n  Recurrence: FREQ=DAILY\n"
    );
}

#[test]
fn property_values_lose_unicode_white_space() {
    let props = extract_properties("SUMMARY:\u{3000}\u{a0}Tea\u{2003}\u{85}\t\nLOCATION:\u{200b}Room\u{200b}\n");
    let pairs: Vec<(String, String)> = props.into_iter().map(|p| (p.key, p.value)).collect();
    // U+200B (zero width space) is not white space.
    assert_eq!(
        pairs,
        vec![
            ("SUMMARY".to_string(), "Tea".to_string()),
            ("LOCATION".to_string(), "\u{200b}Room\u{200b}".to_string()),
        ]
    );
}
