//! WebDAV request bodies and the reading of 207 Multi-Status replies.
use vstd::prelude::*;

use crate::text::{clone_opt, contains, contains_lit, chars_of, opt_view};

verus! {

// --- Reply model of a WebDAV multistatus ---

/// A `<multistatus>` reply.
pub struct Multistatus {
    pub responses: Vec<DavResponse>,
}

/// One `<response>` of a multistatus reply.
pub struct DavResponse {
    pub href: String,
    pub propstats: Vec<Propstat>,
}

/// One `<propstat>`: properties and the status they were answered with.
pub struct Propstat {
    pub prop: Prop,
    pub status: String,
}

/// The properties of a resource that the server reported.
pub struct Prop {
    pub displayname: Option<String>,
    pub calendar_data: Option<String>,
    pub calendar_color: Option<String>,
    pub resourcetype: Option<ResourceType>,
    /// Parsed for later content-type checks.
    pub getcontenttype: Option<String>,
    pub getetag: Option<String>,
}

/// The `<resourcetype>` of a resource.
pub struct ResourceType {
    /// Parsed but not inspected; `calendar` is what matters.
    pub collection: Option<Empty>,
    pub calendar: Option<Empty>,
}

/// An element without content.
pub struct Empty;

/// A successfully reported resource of a 207 multistatus reply.
pub struct DavResource {
    pub href: String,
    pub displayname: Option<String>,
    pub calendar_data: Option<String>,
    pub calendar_color: Option<String>,
    pub is_calendar: bool,
    /// Kept for later conditional requests.
    pub etag: Option<String>,
}

/// The mathematical value of a `DavResource`.
pub struct DavResourceView {
    pub href: Seq<char>,
    pub displayname: Option<Seq<char>>,
    pub calendar_data: Option<Seq<char>>,
    pub calendar_color: Option<Seq<char>>,
    pub is_calendar: bool,
    pub etag: Option<Seq<char>>,
}

impl View for DavResource {
    type V = DavResourceView;

    open spec fn view(&self) -> DavResourceView {
        DavResourceView {
            href: self.href@,
            displayname: opt_view(self.displayname),
            calendar_data: opt_view(self.calendar_data),
            calendar_color: opt_view(self.calendar_color),
            is_calendar: self.is_calendar,
            etag: opt_view(self.etag),
        }
    }
}

/// The resources of a multistatus reply together with its partial failures.
pub struct MultistatusOutcome {
    pub resources: Vec<DavResource>,
    pub errors: Vec<String>,
}

/// A propstat whose status reports success.
pub open spec fn is_success(p: Propstat) -> bool {
    contains(p.status@, "200"@)
}

/// A propstat whose status is a real failure: neither a success nor a 404,
/// which only says that a property is not supported.
pub open spec fn is_failure(p: Propstat) -> bool {
    !contains(p.status@, "200"@) && !contains(p.status@, "404"@)
}

/// The index of the last successful propstat among the first `n`.
pub open spec fn last_success_before(ps: Seq<Propstat>, n: int) -> Option<int>
    decreases n,
{
    if n <= 0 {
        None
    } else if is_success(ps[n - 1]) {
        Some(n - 1)
    } else {
        last_success_before(ps, n - 1)
    }
}

/// The resource that a response reports, if one of its propstats succeeded:
/// the properties of the last successful propstat.
pub open spec fn response_resource(r: DavResponse) -> Option<DavResourceView> {
    match last_success_before(r.propstats@, r.propstats@.len() as int) {
        Some(k) => {
            let prop = r.propstats@[k].prop;
            Some(
                DavResourceView {
                    href: r.href@,
                    displayname: opt_view(prop.displayname),
                    calendar_data: opt_view(prop.calendar_data),
                    calendar_color: opt_view(prop.calendar_color),
                    is_calendar: match prop.resourcetype {
                        Some(rt) => rt.calendar is Some,
                        None => false,
                    },
                    etag: opt_view(prop.getetag),
                },
            )
        },
        None => None,
    }
}

/// The failure messages of a response's propstats, in order: `href: status`.
pub open spec fn response_errors(href: Seq<char>, ps: Seq<Propstat>) -> Seq<Seq<char>>
    decreases ps.len(),
{
    if ps.len() == 0 {
        Seq::empty()
    } else {
        let rest = response_errors(href, ps.drop_last());
        if is_failure(ps.last()) {
            rest.push(href + ": "@ + ps.last().status@)
        } else {
            rest
        }
    }
}

/// The resources of a sequence of responses, in order.
pub open spec fn multistatus_resources(rs: Seq<DavResponse>) -> Seq<DavResourceView>
    decreases rs.len(),
{
    if rs.len() == 0 {
        Seq::empty()
    } else {
        let rest = multistatus_resources(rs.drop_last());
        match response_resource(rs.last()) {
            Some(v) => rest.push(v),
            None => rest,
        }
    }
}

/// The partial failures of a sequence of responses, in order.
pub open spec fn multistatus_errors(rs: Seq<DavResponse>) -> Seq<Seq<char>>
    decreases rs.len(),
{
    if rs.len() == 0 {
        Seq::empty()
    } else {
        multistatus_errors(rs.drop_last()) + response_errors(rs.last().href@, rs.last().propstats@)
    }
}

/// The views of a sequence of resources.
pub open spec fn resource_views(v: Seq<DavResource>) -> Seq<DavResourceView> {
    v.map_values(|r: DavResource| r@)
}

/// The views of a sequence of strings.
pub open spec fn strings_view(v: Seq<String>) -> Seq<Seq<char>> {
    v.map_values(|s: String| s@)
}

/// The failures of one response, in order.
fn failures_of(response: &DavResponse) -> (r: Vec<String>)
    ensures
        strings_view(r@) == response_errors(response.href@, response.propstats@),
{
    let mut out: Vec<String> = Vec::new();
    let mut j: usize = 0;
    while j < response.propstats.len()
        invariant
            0 <= j <= response.propstats@.len(),
            strings_view(out@) == response_errors(
                response.href@,
                response.propstats@.subrange(0, j as int),
            ),
        decreases response.propstats@.len() - j,
    {
        let ps = &response.propstats[j];
        let st = chars_of(ps.status.as_str());
        let ghost prefix = response.propstats@.subrange(0, j + 1);
        assert(prefix.drop_last() =~= response.propstats@.subrange(0, j as int));
        if !contains_lit(st.as_slice(), "200") && !contains_lit(st.as_slice(), "404") {
            let mut msg = response.href.clone();
            msg.append(": ");
            msg.append(ps.status.as_str());
            let ghost prev = strings_view(out@);
            out.push(msg);
            assert(strings_view(out@) =~= prev.push(response.href@ + ": "@ + ps.status@));
        }
        j += 1;
    }
    assert(response.propstats@.subrange(0, response.propstats@.len() as int)
        =~= response.propstats@);
    out
}

/// The resource that one response reports, if any.
fn resource_of(response: &DavResponse) -> (r: Option<DavResource>)
    ensures
        match r {
            Some(v) => response_resource(*response) == Some(v@),
            None => response_resource(*response) is None,
        },
{
    let mut found: Option<usize> = None;
    let mut j: usize = 0;
    while j < response.propstats.len()
        invariant
            0 <= j <= response.propstats@.len(),
            match found {
                Some(k) => k < j && last_success_before(response.propstats@, j as int) == Some(
                    k as int,
                ),
                None => last_success_before(response.propstats@, j as int) is None,
            },
        decreases response.propstats@.len() - j,
    {
        let st = chars_of(response.propstats[j].status.as_str());
        if contains_lit(st.as_slice(), "200") {
            found = Some(j);
        }
        j += 1;
    }
    match found {
        Some(k) => {
            let prop = &response.propstats[k].prop;
            let is_calendar = match &prop.resourcetype {
                Some(rt) => rt.calendar.is_some(),
                None => false,
            };
            Some(
                DavResource {
                    href: response.href.clone(),
                    displayname: clone_opt(&prop.displayname),
                    calendar_data: clone_opt(&prop.calendar_data),
                    calendar_color: clone_opt(&prop.calendar_color),
                    is_calendar,
                    etag: clone_opt(&prop.getetag),
                },
            )
        },
        None => None,
    }
}

/// Reads a WebDAV 207 multistatus reply: every response with a successful
/// propstat yields a resource built from the last such propstat, and every
/// propstat whose status is neither a success nor a 404 is reported as a
/// partial failure (`href: status`) rather than failing the whole reply.
pub fn resources_from_multistatus(ms: &Multistatus) -> (r: MultistatusOutcome)
    ensures
        resource_views(r.resources@) == multistatus_resources(ms.responses@),
        strings_view(r.errors@) == multistatus_errors(ms.responses@),
{
    let mut resources: Vec<DavResource> = Vec::new();
    let mut errors: Vec<String> = Vec::new();
    let mut i: usize = 0;
    while i < ms.responses.len()
        invariant
            0 <= i <= ms.responses@.len(),
            resource_views(resources@) == multistatus_resources(
                ms.responses@.subrange(0, i as int),
            ),
            strings_view(errors@) == multistatus_errors(ms.responses@.subrange(0, i as int)),
        decreases ms.responses@.len() - i,
    {
        let response = &ms.responses[i];
        let ghost prefix = ms.responses@.subrange(0, i + 1);
        assert(prefix.drop_last() =~= ms.responses@.subrange(0, i as int));
        assert(prefix.last() == ms.responses@[i as int]);
        let mut errs = failures_of(response);
        let ghost prev_errors = strings_view(errors@);
        errors.append(&mut errs);
        assert(strings_view(errors@) =~= prev_errors + response_errors(
            response.href@,
            response.propstats@,
        ));
        let ghost prev_res = resource_views(resources@);
        match resource_of(response) {
            Some(res) => {
                resources.push(res);
                assert(resource_views(resources@) =~= prev_res.push(
                    response_resource(*response).unwrap(),
                ));
            },
            None => {},
        }
        i += 1;
    }
    assert(ms.responses@.subrange(0, ms.responses@.len() as int) =~= ms.responses@);
    MultistatusOutcome { resources, errors }
}

// --- Request bodies ---

/// The PROPFIND body that asks for the calendars of an account.
pub open spec fn propfind_calendars_text() -> Seq<char> {
    "<?xml version=\"1.0\" encoding=\"UTF-8\"?>\n<d:propfind xmlns:d=\"DAV:\" xmlns:c=\"urn:ietf:params:xml:ns:caldav\" xmlns:cs=\"http://calendarserver.org/ns/\" xmlns:a=\"http://apple.com/ns/ical/\">\n  <d:prop>\n    <d:displayname/>\n    <d:resourcetype/>\n    <a:calendar-color/>\n  </d:prop>\n</d:propfind>"@
}

/// The PROPFIND body that asks for the display name, resource type and
/// color of the calendars of an account.
pub fn propfind_calendars_body() -> (r: &'static str)
    ensures
        r@ == propfind_calendars_text(),
{
    "<?xml version=\"1.0\" encoding=\"UTF-8\"?>\n<d:propfind xmlns:d=\"DAV:\" xmlns:c=\"urn:ietf:params:xml:ns:caldav\" xmlns:cs=\"http://calendarserver.org/ns/\" xmlns:a=\"http://apple.com/ns/ical/\">\n  <d:prop>\n    <d:displayname/>\n    <d:resourcetype/>\n    <a:calendar-color/>\n  </d:prop>\n</d:propfind>"
}

/// The calendar-query body for the VEVENTs overlapping `[start, end]`.
pub open spec fn calendar_query_text(start: Seq<char>, end: Seq<char>) -> Seq<char> {
    "<?xml version=\"1.0\" encoding=\"UTF-8\"?>\n<c:calendar-query xmlns:d=\"DAV:\" xmlns:c=\"urn:ietf:params:xml:ns:caldav\">\n  <d:prop>\n    <d:getetag/>\n    <c:calendar-data/>\n  </d:prop>\n  <c:filter>\n    <c:comp-filter name=\"VCALENDAR\">\n      <c:comp-filter name=\"VEVENT\">\n        <c:time-range start=\""@
        + start + "\" end=\""@ + end
        + "\"/>\n      </c:comp-filter>\n    </c:comp-filter>\n  </c:filter>\n</c:calendar-query>"@
}

/// The calendar-query body that asks for the VEVENTs in a time range;
/// `start` and `end` are CalDAV timestamps.
pub fn calendar_query_body(start: &str, end: &str) -> (r: String)
    ensures
        r@ == calendar_query_text(start@, end@),
{
    let mut s = String::from_str(
        "<?xml version=\"1.0\" encoding=\"UTF-8\"?>\n<c:calendar-query xmlns:d=\"DAV:\" xmlns:c=\"urn:ietf:params:xml:ns:caldav\">\n  <d:prop>\n    <d:getetag/>\n    <c:calendar-data/>\n  </d:prop>\n  <c:filter>\n    <c:comp-filter name=\"VCALENDAR\">\n      <c:comp-filter name=\"VEVENT\">\n        <c:time-range start=\"",
    );
    s.append(start);
    s.append("\" end=\"");
    s.append(end);
    s.append(
        "\"/>\n      </c:comp-filter>\n    </c:comp-filter>\n  </c:filter>\n</c:calendar-query>",
    );
    s
}

/// The `<d:href>` lines for a list of URLs, joined by line feeds.
pub open spec fn href_lines(urls: Seq<Seq<char>>) -> Seq<char>
    decreases urls.len(),
{
    if urls.len() == 0 {
        Seq::empty()
    } else if urls.len() == 1 {
        "  <d:href>"@ + urls[0] + "</d:href>"@
    } else {
        href_lines(urls.drop_last()) + "\n"@ + ("  <d:href>"@ + urls.last() + "</d:href>"@)
    }
}

/// The calendar-multiget body for a list of URLs.
pub open spec fn multiget_text(urls: Seq<Seq<char>>) -> Seq<char> {
    "<?xml version=\"1.0\" encoding=\"UTF-8\"?>\n<c:calendar-multiget xmlns:d=\"DAV:\" xmlns:c=\"urn:ietf:params:xml:ns:caldav\">\n  <d:prop>\n    <d:getetag/>\n    <c:calendar-data/>\n  </d:prop>\n"@
        + href_lines(urls) + "\n</c:calendar-multiget>"@
}

/// The calendar-multiget body that fetches the calendar data of the given
/// resources.
pub fn multiget_body(urls: &[&str]) -> (r: String)
    ensures
        r@ == multiget_text(urls@.map_values(|u: &str| u@)),
{
    let ghost us = urls@.map_values(|u: &str| u@);
    let mut hrefs = String::new();
    let mut i: usize = 0;
    while i < urls.len()
        invariant
            0 <= i <= urls@.len(),
            us == urls@.map_values(|u: &str| u@),
            hrefs@ == href_lines(us.subrange(0, i as int)),
        decreases urls@.len() - i,
    {
        let ghost prefix = us.subrange(0, i + 1);
        assert(prefix.drop_last() =~= us.subrange(0, i as int));
        assert(prefix.last() == urls@[i as int]@);
        if i > 0 {
            hrefs.append("\n");
        }
        hrefs.append("  <d:href>");
        hrefs.append(urls[i]);
        hrefs.append("</d:href>");
        i += 1;
    }
    assert(us.subrange(0, urls@.len() as int) =~= us);
    let mut s = String::from_str(
        "<?xml version=\"1.0\" encoding=\"UTF-8\"?>\n<c:calendar-multiget xmlns:d=\"DAV:\" xmlns:c=\"urn:ietf:params:xml:ns:caldav\">\n  <d:prop>\n    <d:getetag/>\n    <c:calendar-data/>\n  </d:prop>\n",
    );
    s.append(hrefs.as_str());
    s.append("\n</c:calendar-multiget>");
    s
}

/// The XML text of one character: `&`, `<`, `>` and `"` become entities.
pub open spec fn escape_char(c: char) -> Seq<char> {
    if c == '&' {
        "&amp;"@
    } else if c == '<' {
        "&lt;"@
    } else if c == '>' {
        "&gt;"@
    } else if c == '"' {
        "&quot;"@
    } else {
        seq![c]
    }
}

/// The XML text of a string (the four replacements `&`, `<`, `>`, `"` in turn).
pub open spec fn xml_escape(s: Seq<char>) -> Seq<char>
    decreases s.len(),
{
    if s.len() == 0 {
        Seq::empty()
    } else {
        xml_escape(s.drop_last()) + escape_char(s.last())
    }
}

/// The calendar-query body that looks a VEVENT up by UID.
pub open spec fn uid_query_text(uid: Seq<char>) -> Seq<char> {
    "<?xml version=\"1.0\" encoding=\"UTF-8\"?>\n<c:calendar-query xmlns:d=\"DAV:\" xmlns:c=\"urn:ietf:params:xml:ns:caldav\">\n  <d:prop>\n    <d:getetag/>\n    <c:calendar-data/>\n  </d:prop>\n  <c:filter>\n    <c:comp-filter name=\"VCALENDAR\">\n      <c:comp-filter name=\"VEVENT\">\n        <c:prop-filter name=\"UID\">\n          <c:text-match collation=\"i;unicode-casemap\" match-type=\"equals\">"@
        + xml_escape(uid)
        + "</c:text-match>\n        </c:prop-filter>\n      </c:comp-filter>\n    </c:comp-filter>\n  </c:filter>\n</c:calendar-query>"@
}

/// The XML text of a string.
pub fn escape_xml(s: &str) -> (r: String)
    ensures
        r@ == xml_escape(s@),
{
    let cs = chars_of(s);
    let mut out = String::new();
    let mut i: usize = 0;
    while i < cs.len()
        invariant
            0 <= i <= cs@.len(),
            cs@ == s@,
            out@ == xml_escape(cs@.subrange(0, i as int)),
        decreases cs@.len() - i,
    {
        let ghost prefix = cs@.subrange(0, i + 1);
        assert(prefix.drop_last() =~= cs@.subrange(0, i as int));
        let c = cs[i];
        if c == '&' {
            out.append("&amp;");
        } else if c == '<' {
            out.append("&lt;");
        } else if c == '>' {
            out.append("&gt;");
        } else if c == '"' {
            out.append("&quot;");
        } else {
            let one = crate::text::string_from_chars(&[c]);
            assert(one@ =~= seq![c]);
            out.append(one.as_str());
        }
        i += 1;
    }
    assert(cs@.subrange(0, cs@.len() as int) =~= cs@);
    out
}

/// The calendar-query body that finds a VEVENT by its UID; the UID is
/// escaped so that it cannot break out of the `<c:text-match>` element.
pub fn uid_query_body(uid: &str) -> (r: String)
    ensures
        r@ == uid_query_text(uid@),
{
    let escaped = escape_xml(uid);
    let mut s = String::from_str(
        "<?xml version=\"1.0\" encoding=\"UTF-8\"?>\n<c:calendar-query xmlns:d=\"DAV:\" xmlns:c=\"urn:ietf:params:xml:ns:caldav\">\n  <d:prop>\n    <d:getetag/>\n    <c:calendar-data/>\n  </d:prop>\n  <c:filter>\n    <c:comp-filter name=\"VCALENDAR\">\n      <c:comp-filter name=\"VEVENT\">\n        <c:prop-filter name=\"UID\">\n          <c:text-match collation=\"i;unicode-casemap\" match-type=\"equals\">",
    );
    s.append(escaped.as_str());
    s.append(
        "</c:text-match>\n        </c:prop-filter>\n      </c:comp-filter>\n    </c:comp-filter>\n  </c:filter>\n</c:calendar-query>",
    );
    s
}

/// The calendar-query that asks the server for the events of a window whose
/// SUMMARY contains a text, ignoring case.
pub open spec fn text_search_query_text(query: Seq<char>, start: Seq<char>, end: Seq<char>) -> Seq<
    char,
> {
    "<?xml version=\"1.0\" encoding=\"UTF-8\"?>\n<c:calendar-query xmlns:d=\"DAV:\" xmlns:c=\"urn:ietf:params:xml:ns:caldav\">\n  <d:prop>\n    <d:getetag/>\n    <c:calendar-data/>\n  </d:prop>\n  <c:filter>\n    <c:comp-filter name=\"VCALENDAR\">\n      <c:comp-filter name=\"VEVENT\">\n        <c:time-range start=\""@
        + start + "\" end=\""@ + end
        + "\"/>\n        <c:prop-filter name=\"SUMMARY\">\n          <c:text-match collation=\"i;unicode-casemap\" match-type=\"contains\">"@
        + xml_escape(query)
        + "</c:text-match>\n        </c:prop-filter>\n      </c:comp-filter>\n    </c:comp-filter>\n  </c:filter>\n</c:calendar-query>"@
}

/// The calendar-query body of a server-side search: the events between
/// `start` and `end` whose SUMMARY contains `query`, ignoring case; the query
/// is escaped for XML.
pub fn text_search_query_body(query: &str, start: &str, end: &str) -> (r: String)
    ensures
        r@ == text_search_query_text(query@, start@, end@),
{
    let escaped = escape_xml(query);
    let mut s = String::from_str(
        "<?xml version=\"1.0\" encoding=\"UTF-8\"?>\n<c:calendar-query xmlns:d=\"DAV:\" xmlns:c=\"urn:ietf:params:xml:ns:caldav\">\n  <d:prop>\n    <d:getetag/>\n    <c:calendar-data/>\n  </d:prop>\n  <c:filter>\n    <c:comp-filter name=\"VCALENDAR\">\n      <c:comp-filter name=\"VEVENT\">\n        <c:time-range start=\"",
    );
    s.append(start);
    s.append("\" end=\"");
    s.append(end);
    s.append(
        "\"/>\n        <c:prop-filter name=\"SUMMARY\">\n          <c:text-match collation=\"i;unicode-casemap\" match-type=\"contains\">",
    );
    s.append(escaped.as_str());
    s.append(
        "</c:text-match>\n        </c:prop-filter>\n      </c:comp-filter>\n    </c:comp-filter>\n  </c:filter>\n</c:calendar-query>",
    );
    s
}

} // verus!

verus! {

/// Law: the escaped text of any string holds no `<`, `>` or `"`, so a UID
/// placed in the UID query can never close or open an element or attribute.
pub proof fn law_escaped_text_has_no_markup(s: Seq<char>)
    ensures
        forall|i: int|
            0 <= i < xml_escape(s).len() ==> #[trigger] xml_escape(s)[i] != '<' && xml_escape(
                s,
            )[i] != '>' && xml_escape(s)[i] != '"',
    decreases s.len(),
{
    if s.len() > 0 {
        law_escaped_text_has_no_markup(s.drop_last());
        reveal_strlit("&amp;");
        reveal_strlit("&lt;");
        reveal_strlit("&gt;");
        reveal_strlit("&quot;");
        let a = xml_escape(s.drop_last());
        let b = escape_char(s.last());
        assert forall|i: int| 0 <= i < (a + b).len() implies #[trigger] (a + b)[i] != '<' && (a
            + b)[i] != '>' && (a + b)[i] != '"' by {
            if i >= a.len() {
                assert((a + b)[i] == b[i - a.len()]);
            } else {
                assert((a + b)[i] == a[i]);
            }
        }
    }
}

proof fn lemma_no_failures(ps: Seq<Propstat>, href: Seq<char>)
    requires
        forall|i: int|
            0 <= i < ps.len() ==> contains((#[trigger] ps[i]).status@, "200"@) || contains(
                ps[i].status@,
                "404"@,
            ),
    ensures
        response_errors(href, ps).len() == 0,
    decreases ps.len(),
{
    if ps.len() > 0 {
        let init = ps.drop_last();
        assert forall|i: int| 0 <= i < init.len() implies contains((#[trigger] init[i]).status@, "200"@)
            || contains(init[i].status@, "404"@) by {
            assert(init[i] == ps[i]);
        }
        lemma_no_failures(init, href);
        assert(!is_failure(ps.last()));
    }
}

/// Law: a multistatus reply in which every propstat either succeeded or
/// answered 404 (an unsupported property) reports no partial failure.
pub proof fn law_not_found_properties_are_not_failures(rs: Seq<DavResponse>)
    requires
        forall|i: int, j: int|
            0 <= i < rs.len() && 0 <= j < rs[i].propstats@.len() ==> contains(
                (#[trigger] rs[i].propstats@[j]).status@,
                "200"@,
            ) || contains(rs[i].propstats@[j].status@, "404"@),
    ensures
        multistatus_errors(rs).len() == 0,
    decreases rs.len(),
{
    if rs.len() > 0 {
        let init = rs.drop_last();
        assert forall|i: int, j: int|
            0 <= i < init.len() && 0 <= j < init[i].propstats@.len() implies contains(
            (#[trigger] init[i].propstats@[j]).status@,
            "200"@,
        ) || contains(init[i].propstats@[j].status@, "404"@) by {
            assert(init[i] == rs[i]);
        }
        law_not_found_properties_are_not_failures(init);
        let last = rs.last();
        assert forall|j: int| 0 <= j < last.propstats@.len() implies contains(
            (#[trigger] last.propstats@[j]).status@,
            "200"@,
        ) || contains(last.propstats@[j].status@, "404"@) by {
            assert(last == rs[rs.len() - 1]);
        }
        lemma_no_failures(last.propstats@, last.href@);
    }
}

/// Law: the responses of a multistatus reply are read one by one: the
/// resources and partial failures of two runs of responses, one after the
/// other, are those of the first run followed by those of the second, so a
/// failing response never hides the resources of the others.
pub proof fn law_responses_read_independently(a: Seq<DavResponse>, b: Seq<DavResponse>)
    ensures
        multistatus_resources(a + b) == multistatus_resources(a) + multistatus_resources(b),
        multistatus_errors(a + b) == multistatus_errors(a) + multistatus_errors(b),
    decreases b.len(),
{
    if b.len() == 0 {
        assert(a + b =~= a);
        assert(multistatus_resources(a) + multistatus_resources(b) =~= multistatus_resources(a));
        assert(multistatus_errors(a) + multistatus_errors(b) =~= multistatus_errors(a));
    } else {
        law_responses_read_independently(a, b.drop_last());
        assert((a + b).drop_last() =~= a + b.drop_last());
        assert((a + b).last() == b.last());
        match response_resource(b.last()) {
            Some(v) => {
                assert(multistatus_resources(a) + multistatus_resources(b.drop_last()).push(v)
                    =~= (multistatus_resources(a) + multistatus_resources(b.drop_last())).push(v));
            },
            None => {},
        }
        let eb = response_errors(b.last().href@, b.last().propstats@);
        assert(multistatus_errors(a) + (multistatus_errors(b.drop_last()) + eb)
            =~= (multistatus_errors(a) + multistatus_errors(b.drop_last())) + eb);
    }
}

proof fn lemma_last_success(ps: Seq<Propstat>, n: int)
    requires
        0 <= n <= ps.len(),
    ensures
        match last_success_before(ps, n) {
            Some(k) => 0 <= k < n && is_success(ps[k]) && forall|j: int|
                k < j < n ==> !is_success(#[trigger] ps[j]),
            None => forall|j: int| 0 <= j < n ==> !is_success(#[trigger] ps[j]),
        },
    decreases n,
{
    if n > 0 {
        lemma_last_success(ps, n - 1);
    }
}

/// Law: a response yields a resource exactly when one of its propstats
/// succeeded; the resource has the response's href and the properties of
/// the last successful propstat.
pub proof fn law_resource_iff_successful_propstat(r: DavResponse)
    ensures
        response_resource(r) is Some <==> exists|j: int|
            0 <= j < r.propstats@.len() && is_success(#[trigger] r.propstats@[j]),
        response_resource(r) matches Some(v) ==> v.href == r.href@ && exists|k: int|
            0 <= k < r.propstats@.len() && is_success(#[trigger] r.propstats@[k]) && (forall|j: int|
                k < j < r.propstats@.len() ==> !is_success(#[trigger] r.propstats@[j]))
                && v.displayname == opt_view(r.propstats@[k].prop.displayname) && v.calendar_data
                == opt_view(r.propstats@[k].prop.calendar_data) && v.calendar_color == opt_view(
                r.propstats@[k].prop.calendar_color,
            ) && v.etag == opt_view(r.propstats@[k].prop.getetag),
{
    lemma_last_success(r.propstats@, r.propstats@.len() as int);
}

} // verus!
