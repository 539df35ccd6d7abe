use mcp_caldav::error::CalDavError;
use mcp_caldav::ics::rrule::{ensure_rrule_prefix, expand_rrule};
use mcp_caldav::ics::sorting::sort_by_dtstart;
use mcp_caldav::ics::timezone::{extract_timezones, format_datetime, parse_datetime, resolve_timezone};
use mcp_caldav::ics::types::EventSummary;
use mcp_caldav::ics::zoned_text::zoned_extra_line_of;

const TWO_ZONES: &str = "BEGIN:VCALENDAR\r\n\
BEGIN:VTIMEZONE\r\n\
TZID:Europe/Berlin\r\n\
END:VTIMEZONE\r\n\
BEGIN:VTIMEZONE\r\n\
TZID:Eastern Standard Time\r\n\
END:VTIMEZONE\r\n\
BEGIN:VTIMEZONE\r\n\
TZID:Not A Zone\r\n\
END:VTIMEZONE\r\n\
END:VCALENDAR\r\n";

fn ics_error(r: Result<i64, CalDavError>) -> String {
    match r {
        Err(CalDavError::IcsParseError(m)) => m,
        other => panic!("expected an ICS parse error, got {other:?}"),
    }
}

#[test]
fn iana_names_resolve_directly() {
    assert_eq!(resolve_timezone("America/New_York").unwrap().name(), "America/New_York");
    assert_eq!(resolve_timezone("Europe/Berlin").unwrap().name(), "Europe/Berlin");
}

#[test]
fn vendor_prefixes_and_windows_names_resolve() {
    assert_eq!(
        resolve_timezone("/mozilla.org/20050126_1/Europe/Paris").unwrap().name(),
        "Europe/Paris"
    );
    assert_eq!(resolve_timezone("Eastern Standard Time").unwrap().name(), "America/New_York");
    assert_eq!(resolve_timezone("Tokyo Standard Time").unwrap().name(), "Asia/Tokyo");
    assert_eq!(resolve_timezone("W. Europe Standard Time").unwrap().name(), "Europe/Berlin");
    assert!(resolve_timezone("Nowhere/Special").is_none());
}

#[test]
fn vtimezone_table_keeps_resolvable_zones() {
    let map = extract_timezones(TWO_ZONES);
    assert_eq!(map.get("Europe/Berlin").unwrap().name(), "Europe/Berlin");
    assert_eq!(map.get("Eastern Standard Time").unwrap().name(), "America/New_York");
    assert!(map.get("Not A Zone").is_none());
    assert!(map.get("Asia/Tokyo").is_none());
}

#[test]
fn utc_values_are_read_as_utc() {
    let map = extract_timezones("");
    assert_eq!(parse_datetime("20260503T140000Z", None, &map).unwrap(), 1777816800);
    // A TZID does not change a value that is already in UTC.
    assert_eq!(
        parse_datetime("20260503T140000Z", Some("America/New_York"), &map).unwrap(),
        1777816800
    );
}

#[test]
fn zoned_values_are_converted_from_local_time() {
    let map = extract_timezones(TWO_ZONES);
    // 09:00 in New York in January is 14:00 UTC (EST, UTC-5).
    assert_eq!(
        parse_datetime("20260105T090000", Some("America/New_York"), &map).unwrap(),
        1767621600
    );
    // The Windows name resolves through the table.
    assert_eq!(
        parse_datetime("20260105T090000", Some("Eastern Standard Time"), &map).unwrap(),
        1767621600
    );
}

#[test]
fn floating_and_all_day_values() {
    let map = extract_timezones("");
    // Floating time, and an unknown zone, are read as UTC.
    assert_eq!(parse_datetime("20260503T140000", None, &map).unwrap(), 1777816800);
    assert_eq!(parse_datetime("20260503T140000", Some("Mars/Base"), &map).unwrap(), 1777816800);
    // An all-day date is its midnight.
    assert_eq!(parse_datetime("20260503", None, &map).unwrap(), 1777766400);
    assert_eq!(parse_datetime("  20260503  ", None, &map).unwrap(), 1777766400);
}

#[test]
fn malformed_values_are_ics_errors() {
    let map = extract_timezones("");
    assert_eq!(ics_error(parse_datetime("2026", None, &map)), "unrecognized datetime format: '2026'");
    assert!(ics_error(parse_datetime("20261399", None, &map)).starts_with("bad date '20261399': "));
    assert!(ics_error(parse_datetime("20260503T996000", None, &map))
        .starts_with("bad datetime '20260503T996000': "));
}

#[test]
fn times_are_shown_in_utc_and_local_time() {
    let ny = resolve_timezone("America/New_York").unwrap();
    let (utc, local) = format_datetime(1767621600, Some(&ny));
    assert_eq!(utc, "2026-01-05 14:00 UTC");
    assert_eq!(local, "2026-01-05 09:00 America/New_York");
    let (utc2, local2) = format_datetime(1767621600, None);
    assert_eq!(utc2, "2026-01-05 14:00 UTC");
    assert_eq!(local2, utc2);
}

#[test]
fn rrule_prefix_is_added_once() {
    assert_eq!(ensure_rrule_prefix("FREQ=DAILY"), "RRULE:FREQ=DAILY");
    assert_eq!(ensure_rrule_prefix("RRULE:FREQ=DAILY"), "RRULE:FREQ=DAILY");
}

#[test]
fn bad_rrule_is_an_ics_error() {
    let r = expand_rrule(
        "FREQ=SOMETIMES",
        1777816800,
        None,
        &[],
        3600,
        1777766400,
        1777852799,
        "x",
        "uid",
        None,
        None,
        None,
    );
    match r {
        Err(CalDavError::IcsParseError(m)) => assert!(m.starts_with("RRULE parse error: "), "{m}"),
        other => panic!("expected an ICS parse error, got {:?}", other.map(|v| v.len())),
    }
}

#[test]
fn expanded_instances_carry_the_event_fields() {
    let ny = resolve_timezone("America/New_York").unwrap();
    let v = expand_rrule(
        "FREQ=DAILY;COUNT=3",
        1777816800,
        None,
        &[],
        1800,
        1777766400,
        1777852799,
        "Walk",
        "uid-w",
        Some("Park"),
        Some("Bring water"),
        Some(&ny),
    )
    .unwrap();
    assert_eq!(v.len(), 1);
    let i = &v[0];
    assert_eq!(i.instance_start, 1777816800);
    assert_eq!(i.instance_end, 1777816800 + 1800);
    assert_eq!(i.master_uid, "uid-w");
    assert_eq!(i.summary, "Walk");
    assert_eq!(i.location.as_deref(), Some("Park"));
    assert_eq!(i.description.as_deref(), Some("Bring water"));
    assert_eq!(i.local_start, "2026-05-03 10:00 America/New_York");
    assert_eq!(i.local_end, "2026-05-03 10:30 America/New_York");
    assert_eq!(i.display(), "- Walk | 2026-05-03 10:00 America/New_York -> 2026-05-03 10:30 America/New_York (instance of uid-w)");
}

fn ev(uid: &str, start: i64) -> EventSummary {
    EventSummary {
        uid: uid.into(),
        summary: "s".into(),
        dtstart: start,
        dtend: None,
        location: None,
        description: None,
        is_recurring: false,
        url: String::new(),
        dtstart_tz: None,
    }
}

#[test]
fn sorting_by_start_is_ascending_and_stable() {
    let sorted = sort_by_dtstart(vec![ev("c", 30), ev("a1", 10), ev("b", 20), ev("a2", 10)]);
    let uids: Vec<&str> = sorted.iter().map(|e| e.uid.as_str()).collect();
    assert_eq!(uids, vec!["a1", "a2", "b", "c"]);
}

#[test]
fn recurrence_lines_without_a_zone_are_read_in_utc() {
    assert_eq!(zoned_extra_line_of("EXDATE:20260503T140000"), "EXDATE:20260503T140000Z");
    assert_eq!(
        zoned_extra_line_of("EXDATE;VALUE=DATE:20260503,20260504"),
        "EXDATE;VALUE=DATE:20260503T000000Z,20260504T000000Z"
    );
    assert_eq!(zoned_extra_line_of("RDATE:20260503T140000Z,,20260505T140000"), "RDATE:20260503T140000Z,,20260505T140000Z");
    // A TZID parameter, wherever it stands, keeps the line as it is.
    assert_eq!(
        zoned_extra_line_of("EXDATE;TZID=America/New_York:20260202T090000"),
        "EXDATE;TZID=America/New_York:20260202T090000"
    );
    assert_eq!(
        zoned_extra_line_of("EXDATE;VALUE=DATE-TIME;TZID=Europe/Berlin:20260202T090000"),
        "EXDATE;VALUE=DATE-TIME;TZID=Europe/Berlin:20260202T090000"
    );
}

#[test]
fn floating_exdate_excludes_the_utc_instance() {
    let v = expand_rrule(
        "FREQ=DAILY",
        1777816800,
        None,
        &["EXDATE:20260504T140000".to_string()],
        3600,
        1777766400,
        1777766400 + 3 * 86400 - 1,
        "Daily",
        "uid-f",
        None,
        None,
        None,
    )
    .unwrap();
    let starts: Vec<i64> = v.iter().map(|i| i.instance_start).collect();
    assert_eq!(starts, vec![1777816800, 1777816800 + 2 * 86400]);
}

#[test]
fn until_without_a_zone_is_refused() {
    let r = expand_rrule(
        "FREQ=DAILY;UNTIL=20260510T000000",
        1777816800,
        None,
        &[],
        3600,
        1777766400,
        1777852799,
        "x",
        "uid",
        None,
        None,
        None,
    );
    match r {
        Err(CalDavError::IcsParseError(m)) => {
            assert_eq!(m, "RRULE parse error: date-time without a zone in the recurrence data")
        }
        other => panic!("unexpected {:?}", other.map(|v| v.len())),
    }
    // In UTC it is accepted.
    let ok = expand_rrule(
        "FREQ=DAILY;until=20260510T000000Z",
        1777816800,
        None,
        &[],
        3600,
        1777766400,
        1777852799,
        "x",
        "uid",
        None,
        None,
        None,
    )
    .unwrap();
    assert_eq!(ok.len(), 1);
}
