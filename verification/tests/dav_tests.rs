use mcp_caldav::dav::client::{calendars_from_resources, resolve_href};
use mcp_caldav::dav::xml::{
    calendar_query_body, escape_xml, multiget_body, propfind_calendars_body,
    resources_from_multistatus, uid_query_body, DavResource, DavResponse, Empty, Multistatus,
    Prop, Propstat, ResourceType,
};

fn prop(displayname: Option<&str>, calendar: bool, data: Option<&str>) -> Prop {
    Prop {
        displayname: displayname.map(String::from),
        calendar_data: data.map(String::from),
        calendar_color: None,
        resourcetype: Some(ResourceType {
            collection: Some(Empty),
            calendar: if calendar { Some(Empty) } else { None },
        }),
        getcontenttype: None,
        getetag: Some("\"e1\"".to_string()),
    }
}

fn propstat(p: Prop, status: &str) -> Propstat {
    Propstat { prop: p, status: status.to_string() }
}

fn response(href: &str, propstats: Vec<Propstat>) -> DavResponse {
    DavResponse { href: href.to_string(), propstats }
}

fn resource(href: &str, name: Option<&str>, is_calendar: bool) -> DavResource {
    DavResource {
        href: href.to_string(),
        displayname: name.map(String::from),
        calendar_data: None,
        calendar_color: Some("#ff0000".to_string()),
        is_calendar,
        etag: None,
    }
}

#[test]
fn multistatus_keeps_successful_resources_and_ignores_404_properties() {
    let ms = Multistatus {
        responses: vec![response(
            "/cal/work/",
            vec![
                propstat(prop(Some("Work"), true, None), "HTTP/1.1 200 OK"),
                propstat(prop(None, false, None), "HTTP/1.1 404 Not Found"),
            ],
        )],
    };
    let out = resources_from_multistatus(&ms);
    assert_eq!(out.resources.len(), 1);
    assert!(out.errors.is_empty());
    let r = &out.resources[0];
    assert_eq!(r.href, "/cal/work/");
    assert_eq!(r.displayname.as_deref(), Some("Work"));
    assert!(r.is_calendar);
    assert_eq!(r.etag.as_deref(), Some("\"e1\""));
}

#[test]
fn multistatus_reports_partial_failures_without_failing() {
    let ms = Multistatus {
        responses: vec![
            response("/a.ics", vec![propstat(prop(None, false, Some("ICS-A")), "HTTP/1.1 200 OK")]),
            response("/b.ics", vec![propstat(prop(None, false, None), "HTTP/1.1 500 Internal Server Error")]),
            response("/c.ics", vec![propstat(prop(None, false, Some("ICS-C")), "HTTP/1.1 200 OK")]),
        ],
    };
    let out = resources_from_multistatus(&ms);
    let hrefs: Vec<&str> = out.resources.iter().map(|r| r.href.as_str()).collect();
    assert_eq!(hrefs, vec!["/a.ics", "/c.ics"]);
    assert_eq!(out.errors, vec!["/b.ics: HTTP/1.1 500 Internal Server Error".to_string()]);
}

#[test]
fn multistatus_uses_the_last_successful_propstat() {
    let ms = Multistatus {
        responses: vec![response(
            "/x/",
            vec![
                propstat(prop(Some("First"), false, None), "HTTP/1.1 200 OK"),
                propstat(prop(Some("Second"), true, None), "HTTP/1.1 200 OK"),
            ],
        )],
    };
    let out = resources_from_multistatus(&ms);
    assert_eq!(out.resources[0].displayname.as_deref(), Some("Second"));
    assert!(out.resources[0].is_calendar);
}

#[test]
fn multistatus_responses_are_read_independently() {
    // Law: reading two runs of responses together gives the results of
    // reading each run on its own, one after the other.
    let mk = || {
        vec![
            response("/a.ics", vec![propstat(prop(None, false, Some("A")), "HTTP/1.1 200 OK")]),
            response("/b.ics", vec![propstat(prop(None, false, None), "HTTP/1.1 403 Forbidden")]),
        ]
    };
    let mk2 = || vec![response("/c.ics", vec![propstat(prop(None, false, Some("C")), "HTTP/1.1 200 OK")])];
    let first = resources_from_multistatus(&Multistatus { responses: mk() });
    let second = resources_from_multistatus(&Multistatus { responses: mk2() });
    let mut both_responses = mk();
    both_responses.extend(mk2());
    let both = resources_from_multistatus(&Multistatus { responses: both_responses });
    let hrefs = |v: &Vec<DavResource>| v.iter().map(|r| r.href.clone()).collect::<Vec<_>>();
    let mut expected = hrefs(&first.resources);
    expected.extend(hrefs(&second.resources));
    assert_eq!(hrefs(&both.resources), expected);
    let mut expected_errors = first.errors.clone();
    expected_errors.extend(second.errors.clone());
    assert_eq!(both.errors, expected_errors);
}

#[test]
fn multistatus_response_without_success_yields_nothing() {
    let ms = Multistatus {
        responses: vec![response("/gone/", vec![propstat(prop(None, false, None), "HTTP/1.1 404 Not Found")])],
    };
    let out = resources_from_multistatus(&ms);
    assert!(out.resources.is_empty());
    assert!(out.errors.is_empty());
}

#[test]
fn uid_query_escapes_markup_in_the_uid() {
    let body = uid_query_body("a&b<c>\"d");
    assert!(body.contains(
        "<c:text-match collation=\"i;unicode-casemap\" match-type=\"equals\">a&amp;b&lt;c&gt;&quot;d</c:text-match>"
    ));
    assert!(!body.contains("b<c>"));
}

#[test]
fn escaped_text_has_no_markup() {
    let escaped = escape_xml("<tag attr=\"x\">&</tag>");
    assert_eq!(escaped, "&lt;tag attr=&quot;x&quot;&gt;&amp;&lt;/tag&gt;");
    assert!(!escaped.contains('<') && !escaped.contains('>') && !escaped.contains('"'));
}

#[test]
fn calendar_query_body_carries_the_time_range() {
    let body = calendar_query_body("20260503T000000Z", "20260510T000000Z");
    let expected = "<?xml version=\"1.0\" encoding=\"UTF-8\"?>
<c:calendar-query xmlns:d=\"DAV:\" xmlns:c=\"urn:ietf:params:xml:ns:caldav\">
  <d:prop>
    <d:getetag/>
    <c:calendar-data/>
  </d:prop>
  <c:filter>
    <c:comp-filter name=\"VCALENDAR\">
      <c:comp-filter name=\"VEVENT\">
        <c:time-range start=\"20260503T000000Z\" end=\"20260510T000000Z\"/>
      </c:comp-filter>
    </c:comp-filter>
  </c:filter>
</c:calendar-query>";
    assert_eq!(body, expected);
}

#[test]
fn multiget_body_lists_one_href_per_url() {
    let body = multiget_body(&["/cal/a.ics", "/cal/b.ics"]);
    let expected = "<?xml version=\"1.0\" encoding=\"UTF-8\"?>
<c:calendar-multiget xmlns:d=\"DAV:\" xmlns:c=\"urn:ietf:params:xml:ns:caldav\">
  <d:prop>
    <d:getetag/>
    <c:calendar-data/>
  </d:prop>
  <d:href>/cal/a.ics</d:href>
  <d:href>/cal/b.ics</d:href>
</c:calendar-multiget>";
    assert_eq!(body, expected);
}

#[test]
fn propfind_body_asks_for_name_type_and_color() {
    let body = propfind_calendars_body();
    assert!(body.starts_with("<?xml version=\"1.0\" encoding=\"UTF-8\"?>\n<d:propfind"));
    assert!(body.contains("<d:displayname/>"));
    assert!(body.contains("<d:resourcetype/>"));
    assert!(body.contains("<a:calendar-color/>"));
    assert!(body.ends_with("</d:propfind>"));
}

#[test]
fn resolve_href_keeps_absolute_urls() {
    assert_eq!(
        resolve_href("https://dav.example.com/cal/", "https://other.example.com/x/"),
        "https://other.example.com/x/"
    );
    assert_eq!(resolve_href("https://dav.example.com/", "http://plain/x"), "http://plain/x");
}

#[test]
fn resolve_href_joins_relative_hrefs_to_the_origin() {
    assert_eq!(
        resolve_href("https://dav.example.com/remote.php/dav/calendars/alice/", "/remote.php/dav/calendars/alice/work/"),
        "https://dav.example.com/remote.php/dav/calendars/alice/work/"
    );
}

#[test]
fn resolve_href_falls_back_to_concatenation() {
    // No path after the host, and no scheme at all: the href is appended.
    assert_eq!(resolve_href("https://dav.example.com", "/cal/"), "https://dav.example.com/cal/");
    assert_eq!(resolve_href("base", "/cal/"), "base/cal/");
    // Law: whatever the base, the result ends with the href.
    for base in ["https://h/p/", "x", ""] {
        assert!(resolve_href(base, "/z.ics").ends_with("/z.ics"));
    }
}

#[test]
fn calendars_are_the_calendar_resources_resolved_and_named() {
    let resources = vec![
        resource("/dav/cal/work/", Some("Work"), true),
        resource("/dav/cal/", Some("Home collection"), false),
        resource("/dav/cal/untitled/", None, true),
    ];
    let cals = calendars_from_resources("https://dav.example.com/dav/cal/", "Personal", &resources);
    assert_eq!(cals.len(), 2);
    assert_eq!(cals[0].name, "Work");
    assert_eq!(cals[0].url, "https://dav.example.com/dav/cal/work/");
    assert_eq!(cals[0].account_name, "Personal");
    assert_eq!(cals[0].color.as_deref(), Some("#ff0000"));
    assert_eq!(cals[1].name, "Untitled");
    assert_eq!(cals[1].url, "https://dav.example.com/dav/cal/untitled/");
}
