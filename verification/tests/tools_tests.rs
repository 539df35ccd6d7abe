use mcp_caldav::dav::xml::{calendar_query_body, DavResource};
use mcp_caldav::error::CalDavError;
use mcp_caldav::ics::types::{CalendarInfo, EventSummary};
use mcp_caldav::server::{
    calendar_data_for_uid, decimal_text, details_source, details_url, discovery_error_entry,
    events_query, extract_host, find_account_for_url, parse_date, render_calendar_list,
    render_event_details, render_events, render_raw_dump, render_search, render_server_hits,
    search_window, server_search_body,
    select_accounts, to_caldav_timestamp, window_query_body, DetailsSource,
};

const LUNCH_ICS: &str = "BEGIN:VCALENDAR\r\n\
VERSION:2.0\r\n\
BEGIN:VEVENT\r\n\
UID:l1\r\n\
SUMMARY:Lunch\r\n\
LOCATION:Cafe Aurelius\r\n\
DTSTART:20260503T120000Z\r\n\
DTEND:20260503T130000Z\r\n\
END:VEVENT\r\n\
END:VCALENDAR\r\n";

const DAILY_ICS: &str = "BEGIN:VCALENDAR\r\n\
VERSION:2.0\r\n\
BEGIN:VEVENT\r\n\
UID:d1\r\n\
SUMMARY:Daily\r\n\
DTSTART:20260503T140000Z\r\n\
DTEND:20260503T150000Z\r\n\
RRULE:FREQ=DAILY;COUNT=5\r\n\
END:VEVENT\r\n\
END:VCALENDAR\r\n";

const EARLY_ICS: &str = "BEGIN:VCALENDAR\r\n\
VERSION:2.0\r\n\
BEGIN:VEVENT\r\n\
UID:b1\r\n\
SUMMARY:Breakfast\r\n\
DTSTART:20260503T070000Z\r\n\
END:VEVENT\r\n\
END:VCALENDAR\r\n";

fn res(href: &str, data: Option<&str>) -> DavResource {
    DavResource {
        href: href.to_string(),
        displayname: None,
        calendar_data: data.map(String::from),
        calendar_color: None,
        is_calendar: false,
        etag: None,
    }
}

fn config_message<T>(r: Result<T, CalDavError>) -> String {
    match r {
        Err(CalDavError::Config(m)) => m,
        Err(other) => panic!("expected a configuration error, got {other:?}"),
        Ok(_) => panic!("expected a configuration error"),
    }
}

#[test]
fn host_of_a_url() {
    assert_eq!(extract_host("https://cal.example.com/dav/alice/"), "cal.example.com");
    assert_eq!(extract_host("http://host:8080"), "host:8080");
    assert_eq!(extract_host("no-scheme/path"), "no-scheme/path");
}

#[test]
fn account_for_url_prefers_the_base_url_prefix() {
    let bases = vec![
        "https://cal.example.com/dav/bob/".to_string(),
        "https://cal.example.com/dav/alice/".to_string(),
    ];
    assert_eq!(find_account_for_url(&bases, "https://cal.example.com/dav/alice/work/").unwrap(), 1);
    // Same host, no prefix: the first account on that host.
    assert_eq!(find_account_for_url(&bases, "https://cal.example.com/other/").unwrap(), 0);
    assert_eq!(
        config_message(find_account_for_url(&bases, "https://elsewhere.org/cal/")),
        "no account found for calendar URL: https://elsewhere.org/cal/"
    );
}

#[test]
fn accounts_selected_for_a_listing() {
    let names = vec!["Personal".to_string(), "Work".to_string()];
    assert_eq!(select_accounts(&names, None).unwrap(), vec![0, 1]);
    assert_eq!(select_accounts(&names, Some("Work")).unwrap(), vec![1]);
    assert_eq!(config_message(select_accounts(&names, Some("Nope"))), "unknown account: Nope");
}

#[test]
fn dates_are_read_as_their_midnight() {
    assert_eq!(parse_date("2026-05-03").unwrap(), 1777766400);
    let m = config_message(parse_date("03/05/2026"));
    assert!(m.starts_with("invalid date '03/05/2026': "), "{m}");
    assert_eq!(to_caldav_timestamp(1777766400), "20260503T000000Z");
}

#[test]
fn events_query_spans_whole_days() {
    let q = events_query("2026-05-03", "2026-05-03").unwrap();
    assert_eq!(q.range_start, 1777766400);
    assert_eq!(q.range_end, 1777766400 + 86399);
    assert_eq!(q.body, calendar_query_body("20260503T000000Z", "20260503T000000Z"));
    assert!(config_message(events_query("2026-05-03", "bad")).starts_with("invalid date 'bad'"));
}

#[test]
fn search_window_defaults_to_thirty_days_around_today() {
    let today = 1777766400;
    assert_eq!(search_window(None, None, today).unwrap(), (1775174400, 1780358400));
    assert_eq!(
        search_window(Some("2026-05-01"), None, today).unwrap(),
        (1777593600, 1780358400)
    );
    assert!(config_message(search_window(None, Some("x"), today)).starts_with("invalid date 'x'"));
    assert_eq!(
        window_query_body(1777766400, 1778371200),
        calendar_query_body("20260503T000000Z", "20260510T000000Z")
    );
}

#[test]
fn details_come_from_the_url_first() {
    match details_source(Some("uid"), Some("https://x/e.ics"), Some("https://x/")).unwrap() {
        DetailsSource::ByUrl(u) => assert_eq!(u, "https://x/e.ics"),
        DetailsSource::ByUid { .. } => panic!("expected the event URL"),
    }
    match details_source(Some("uid-7"), None, Some("https://x/cal/")).unwrap() {
        DetailsSource::ByUid { uid, calendar_url } => {
            assert_eq!(uid, "uid-7");
            assert_eq!(calendar_url, "https://x/cal/");
        }
        DetailsSource::ByUrl(_) => panic!("expected a UID query"),
    }
    assert_eq!(
        config_message(details_source(Some("uid"), None, None)),
        "calendar_url is required when using event_uid"
    );
    assert_eq!(
        config_message(details_source(None, None, Some("https://x/"))),
        "either event_uid or event_url must be provided"
    );
    assert_eq!(details_url(Some("e"), Some("c")), "e");
    assert_eq!(details_url(None, Some("c")), "c");
    assert_eq!(details_url(None, None), "unknown");
}

#[test]
fn uid_query_takes_the_first_resource_with_data() {
    let found = vec![res("/a", None), res("/b", Some("ICS-B")), res("/c", Some("ICS-C"))];
    assert_eq!(calendar_data_for_uid(&found, "u1").unwrap(), "ICS-B");
    match calendar_data_for_uid(&vec![res("/a", None)], "u1") {
        Err(CalDavError::ResourceNotFound(m)) => assert_eq!(m, "event with UID 'u1' not found"),
        Err(other) => panic!("unexpected {other:?}"),
        Ok(s) => panic!("unexpected {s}"),
    }
}

#[test]
fn events_listing_sorts_one_offs_then_expands_recurrences() {
    let resources = vec![
        res("/lunch.ics", Some(LUNCH_ICS)),
        res("/daily.ics", Some(DAILY_ICS)),
        res("/empty", None),
        res("/early.ics", Some(EARLY_ICS)),
    ];
    // Window: 2026-05-03 00:00:00 to 2026-05-04 23:59:59.
    let out = render_events(&resources, 1777766400, 1777852800 + 86399);
    let expected = [
        "- Breakfast | 2026-05-03 07:00 UTC [b1]",
        "- Lunch | 2026-05-03 12:00 UTC -> 2026-05-03 13:00 UTC [l1]",
        "- Daily | 2026-05-03 14:00 UTC -> 2026-05-03 15:00 UTC (instance of d1)",
        "- Daily | 2026-05-04 14:00 UTC -> 2026-05-04 15:00 UTC (instance of d1)",
    ]
    .join("\n");
    assert_eq!(out, expected);
}

#[test]
fn events_listing_says_when_there_is_nothing() {
    assert_eq!(
        render_events(&vec![res("/x", None)], 1777766400, 1777852799),
        "No events found in the specified date range."
    );
}

#[test]
fn search_matches_text_fields_ignoring_case() {
    let resources = vec![
        res("/daily.ics", Some(DAILY_ICS)),
        res("/lunch.ics", Some(LUNCH_ICS)),
        res("/early.ics", Some(EARLY_ICS)),
    ];
    assert_eq!(
        render_search(&resources, "AURELIUS"),
        "- Lunch | 2026-05-03 12:00 UTC -> 2026-05-03 13:00 UTC [l1]"
    );
    assert_eq!(
        render_search(&resources, "a"),
        [
            "- Breakfast | 2026-05-03 07:00 UTC [b1]",
            "- Lunch | 2026-05-03 12:00 UTC -> 2026-05-03 13:00 UTC [l1]",
            "- Daily | 2026-05-03 14:00 UTC -> 2026-05-03 15:00 UTC (recurring) [d1]",
        ]
        .join("\n")
    );
    assert_eq!(render_search(&resources, "xyzzy"), "No events matching 'xyzzy' found.");
}

#[test]
fn event_details_are_rendered_field_by_field() {
    let out = render_event_details(LUNCH_ICS, "https://x/lunch.ics").unwrap();
    assert_eq!(
        out,
        "Event: Lunch\n  UID: l1\n  Start: 2026-05-03 12:00 UTC (2026-05-03 12:00 UTC)\n  End: 2026-05-03 13:00 UTC (2026-05-03 13:00 UTC)\n  Location: Cafe Aurelius\n"
    );
    let two = format!("{}{}", LUNCH_ICS, EARLY_ICS);
    let out2 = render_event_details(&two, "u").unwrap();
    assert!(out2.contains("\n---\n"), "{out2}");
}

#[test]
fn raw_dump_shows_every_body_as_returned() {
    let resources = vec![res("/a.ics", Some("BEGIN:VCALENDAR\nEND:VCALENDAR")), res("/b", None)];
    assert_eq!(
        render_raw_dump(&resources, "2026-05-01", "2026-05-31"),
        "2 resource(s) returned for 2026-05-01..2026-05-31\n\n\
=== Resource 1 : /a.ics ===\nBEGIN:VCALENDAR\nEND:VCALENDAR\n\n\
=== Resource 2 : /b ===\n(no calendar-data field on this resource)\n\n"
    );
    assert_eq!(decimal_text(0), "0");
    assert_eq!(decimal_text(1207), "1207");
}

#[test]
fn calendar_listing_and_discovery_errors() {
    let cals = vec![
        CalendarInfo {
            name: "Work".into(),
            url: "https://x/work/".into(),
            account_name: "Personal".into(),
            color: None,
        },
        discovery_error_entry("Broken", &CalDavError::ServerOverloaded),
    ];
    assert_eq!(cals[1].name, "(error: server overloaded (retry later))");
    assert_eq!(cals[1].url, "");
    assert_eq!(
        render_calendar_list(&cals),
        "- Work [Personal] (https://x/work/)\n- (error: server overloaded (retry later)) [Broken] ()"
    );
    assert_eq!(render_calendar_list(&vec![]), "No calendars found.");
}

#[test]
fn matching_ignores_case_on_both_sides() {
    let mk = |summary: &str, location: Option<&str>| EventSummary {
        uid: "u".into(),
        summary: summary.into(),
        dtstart: 0,
        dtend: None,
        location: location.map(String::from),
        description: None,
        is_recurring: false,
        url: String::new(),
        dtstart_tz: None,
    };
    let a = mk("Quarterly REVIEW", Some("Room A"));
    let b = mk("quarterly review", Some("ROOM a"));
    for (qa, qb) in [("REVIEW", "review"), ("room a", "Room A"), ("xyz", "XYZ")] {
        assert_eq!(a.matches_query(qa), b.matches_query(qb), "{qa} / {qb}");
    }
    assert!(a.matches_query("ReViEw") && b.matches_query("ROOM A"));
    assert!(!a.matches_query("xyz"));
}

#[test]
fn accounts_of_the_same_name_are_one_account() {
    let names = vec!["Work".to_string(), "Home".to_string(), "Work".to_string()];
    // The later account of a name replaces the earlier one.
    assert_eq!(select_accounts(&names, Some("Work")).unwrap(), vec![2]);
    assert_eq!(select_accounts(&names, None).unwrap(), vec![1, 2]);
}

#[test]
fn server_hits_are_used_when_there_are_any() {
    let hits = vec![res("/daily.ics", Some(DAILY_ICS)), res("/lunch.ics", Some(LUNCH_ICS))];
    assert_eq!(
        render_server_hits(&hits).unwrap(),
        [
            "- Lunch | 2026-05-03 12:00 UTC -> 2026-05-03 13:00 UTC [l1]",
            "- Daily | 2026-05-03 14:00 UTC -> 2026-05-03 15:00 UTC (recurring) [d1]",
        ]
        .join("\n")
    );
    // Nothing found by the server: the search goes on client-side.
    assert!(render_server_hits(&vec![]).is_none());
    assert!(render_server_hits(&vec![res("/x", None), res("/y", Some("garbage"))]).is_none());
}

#[test]
fn server_search_asks_for_summary_matches_in_the_window() {
    let body = server_search_body("R&D <sync>", 1777766400, 1778371200);
    let expected = "<?xml version=\"1.0\" encoding=\"UTF-8\"?>
<c:calendar-query xmlns:d=\"DAV:\" xmlns:c=\"urn:ietf:params:xml:ns:caldav\">
  <d:prop>
    <d:getetag/>
    <c:calendar-data/>
  </d:prop>
  <c:filter>
    <c:comp-filter name=\"VCALENDAR\">
      <c:comp-filter name=\"VEVENT\">
        <c:time-range start=\"20260503T000000Z\" end=\"20260510T000000Z\"/>
        <c:prop-filter name=\"SUMMARY\">
          <c:text-match collation=\"i;unicode-casemap\" match-type=\"contains\">R&amp;D &lt;sync&gt;</c:text-match>
        </c:prop-filter>
      </c:comp-filter>
    </c:comp-filter>
  </c:filter>
</c:calendar-query>";
    assert_eq!(body, expected);
}
