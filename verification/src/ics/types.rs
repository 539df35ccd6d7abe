//! Calendars and events as the tools present them.
use vstd::prelude::*;

use crate::ics::timezone::{duplicate_opt, format_utc, opt_tz_view, spec_format_utc, ts_valid, Tz};
use crate::text::{
    chars_of, clone_opt, contains, contains_chars, join, join_strings, opt_view, spec_to_lowercase,
    to_lowercase,
};

verus! {

/// A calendar of an account.
#[derive(Clone)]
pub struct CalendarInfo {
    pub name: String,
    pub url: String,
    pub account_name: String,
    pub color: Option<String>,
}

/// The mathematical value of a `CalendarInfo`.
pub struct CalendarInfoView {
    pub name: Seq<char>,
    pub url: Seq<char>,
    pub account_name: Seq<char>,
    pub color: Option<Seq<char>>,
}

impl View for CalendarInfo {
    type V = CalendarInfoView;

    open spec fn view(&self) -> CalendarInfoView {
        CalendarInfoView {
            name: self.name@,
            url: self.url@,
            account_name: self.account_name@,
            color: opt_view(self.color),
        }
    }
}

/// An event as a VEVENT describes it; times are instants in seconds.
pub struct EventSummary {
    pub uid: String,
    pub summary: String,
    pub dtstart: i64,
    pub dtend: Option<i64>,
    pub location: Option<String>,
    pub description: Option<String>,
    pub is_recurring: bool,
    pub url: String,
    /// The zone of the DTSTART's TZID, if it names one; recurrences are
    /// expanded in this zone's local time.
    pub dtstart_tz: Option<Tz>,
}

/// The mathematical value of an `EventSummary`.
pub struct EventSummaryView {
    pub uid: Seq<char>,
    pub summary: Seq<char>,
    pub dtstart: i64,
    pub dtend: Option<i64>,
    pub location: Option<Seq<char>>,
    pub description: Option<Seq<char>>,
    pub is_recurring: bool,
    pub url: Seq<char>,
    pub dtstart_tz: Option<Seq<char>>,
}

impl View for EventSummary {
    type V = EventSummaryView;

    open spec fn view(&self) -> EventSummaryView {
        EventSummaryView {
            uid: self.uid@,
            summary: self.summary@,
            dtstart: self.dtstart,
            dtend: self.dtend,
            location: opt_view(self.location),
            description: opt_view(self.description),
            is_recurring: self.is_recurring,
            url: self.url@,
            dtstart_tz: opt_tz_view(self.dtstart_tz),
        }
    }
}

/// The full description of an event.
pub struct EventDetail {
    pub uid: String,
    pub summary: String,
    pub description: Option<String>,
    pub dtstart: i64,
    pub dtend: Option<i64>,
    pub location: Option<String>,
    pub organizer: Option<String>,
    pub attendees: Vec<String>,
    pub rrule: Option<String>,
    pub is_recurring: bool,
    pub url: String,
    pub local_start: String,
    pub local_end: Option<String>,
}

/// The mathematical value of an `EventDetail`.
pub struct EventDetailView {
    pub uid: Seq<char>,
    pub summary: Seq<char>,
    pub description: Option<Seq<char>>,
    pub dtstart: i64,
    pub dtend: Option<i64>,
    pub location: Option<Seq<char>>,
    pub organizer: Option<Seq<char>>,
    pub attendees: Seq<Seq<char>>,
    pub rrule: Option<Seq<char>>,
    pub is_recurring: bool,
    pub url: Seq<char>,
    pub local_start: Seq<char>,
    pub local_end: Option<Seq<char>>,
}

impl View for EventDetail {
    type V = EventDetailView;

    open spec fn view(&self) -> EventDetailView {
        EventDetailView {
            uid: self.uid@,
            summary: self.summary@,
            description: opt_view(self.description),
            dtstart: self.dtstart,
            dtend: self.dtend,
            location: opt_view(self.location),
            organizer: opt_view(self.organizer),
            attendees: self.attendees@.map_values(|a: String| a@),
            rrule: opt_view(self.rrule),
            is_recurring: self.is_recurring,
            url: self.url@,
            local_start: self.local_start@,
            local_end: opt_view(self.local_end),
        }
    }
}

/// One occurrence of a recurring event.
pub struct EventInstance {
    pub master_uid: String,
    pub summary: String,
    pub instance_start: i64,
    pub instance_end: i64,
    pub local_start: String,
    pub local_end: String,
    pub location: Option<String>,
    pub description: Option<String>,
}

/// The mathematical value of an `EventInstance`.
pub struct EventInstanceView {
    pub master_uid: Seq<char>,
    pub summary: Seq<char>,
    pub instance_start: i64,
    pub instance_end: i64,
    pub local_start: Seq<char>,
    pub local_end: Seq<char>,
    pub location: Option<Seq<char>>,
    pub description: Option<Seq<char>>,
}

impl View for EventInstance {
    type V = EventInstanceView;

    open spec fn view(&self) -> EventInstanceView {
        EventInstanceView {
            master_uid: self.master_uid@,
            summary: self.summary@,
            instance_start: self.instance_start,
            instance_end: self.instance_end,
            local_start: self.local_start@,
            local_end: self.local_end@,
            location: opt_view(self.location),
            description: opt_view(self.description),
        }
    }
}

/// `text` holds the lower-cased query, ignoring case.
pub open spec fn field_matches(text: Seq<char>, lower_query: Seq<char>) -> bool {
    contains(spec_to_lowercase(text), lower_query)
}

/// An event matches a query when the query is empty, or when its summary,
/// description or location contains the query, ignoring case. No other field
/// (the UID, the URL, the recurrence rule) is searched.
pub open spec fn query_matches(e: EventSummaryView, query: Seq<char>) -> bool {
    let q = spec_to_lowercase(query);
    ||| query.len() == 0
    ||| field_matches(e.summary, q)
    ||| (e.description matches Some(d) && field_matches(d, q))
    ||| (e.location matches Some(l) && field_matches(l, q))
}

/// The listing line of a calendar.
pub open spec fn calendar_line(c: CalendarInfoView) -> Seq<char> {
    "- "@ + c.name + " ["@ + c.account_name + "] ("@ + c.url + ")"@
}

/// The times of an event lie within the range of date-times.
pub open spec fn summary_times_valid(e: EventSummaryView) -> bool {
    ts_valid(e.dtstart as int) && (e.dtend matches Some(t) ==> ts_valid(t as int))
}

/// The listing line of an event: summary, start (and end) in UTC, a
/// recurrence mark and the UID.
pub open spec fn event_line(e: EventSummaryView) -> Seq<char> {
    let end = match e.dtend {
        Some(t) => " -> "@ + spec_format_utc(t, "%Y-%m-%d %H:%M UTC"@),
        None => Seq::empty(),
    };
    let recurring = if e.is_recurring {
        " (recurring)"@
    } else {
        Seq::empty()
    };
    "- "@ + e.summary + " | "@ + spec_format_utc(e.dtstart, "%Y-%m-%d %H:%M UTC"@) + end
        + recurring + " ["@ + e.uid + "]"@
}

/// The listing line of an occurrence.
pub open spec fn instance_line(i: EventInstanceView) -> Seq<char> {
    "- "@ + i.summary + " | "@ + i.local_start + " -> "@ + i.local_end + " (instance of "@
        + i.master_uid + ")"@
}

/// The times of a detail lie within the range of date-times.
pub open spec fn detail_times_valid(d: EventDetailView) -> bool {
    ts_valid(d.dtstart as int) && (d.dtend matches Some(t) ==> ts_valid(t as int))
}

/// A labelled line `label` + `value` + line feed when the value is there.
pub open spec fn opt_line(label: Seq<char>, value: Option<Seq<char>>) -> Seq<char> {
    match value {
        Some(v) => label + v + "\n"@,
        None => Seq::empty(),
    }
}

/// The first lines of an event's description: title, UID and start.
pub open spec fn detail_head(d: EventDetailView) -> Seq<char> {
    "Event: "@ + d.summary + "\n"@ + "  UID: "@ + d.uid + "\n"@ + "  Start: "@ + d.local_start
        + " ("@ + spec_format_utc(d.dtstart, "%Y-%m-%d %H:%M UTC"@) + ")\n"@
}

/// The end line of an event's description, when it has a local end.
pub open spec fn detail_end_line(d: EventDetailView) -> Seq<char> {
    match d.local_end {
        Some(end) => "  End: "@ + end + " ("@ + match d.dtend {
            Some(t) => spec_format_utc(t, "%Y-%m-%d %H:%M"@),
            None => Seq::empty(),
        } + " UTC)\n"@,
        None => Seq::empty(),
    }
}

/// The attendee line of an event's description, when it has attendees.
pub open spec fn detail_attendees(d: EventDetailView) -> Seq<char> {
    if d.attendees.len() == 0 {
        Seq::empty()
    } else {
        "  Attendees: "@ + join(d.attendees, ", "@) + "\n"@
    }
}

/// The text that describes an event in full, one labelled line per field.
pub open spec fn detail_text(d: EventDetailView) -> Seq<char> {
    detail_head(d) + detail_end_line(d) + opt_line("  Location: "@, d.location) + opt_line(
        "  Description: "@,
        d.description,
    ) + opt_line("  Organizer: "@, d.organizer) + detail_attendees(d) + opt_line(
        "  Recurrence: "@,
        d.rrule,
    )
}

/// `field` contains `lower_query` once lower-cased.
fn field_contains(field: &str, lower_query: &[char]) -> (r: bool)
    ensures
        r == field_matches(field@, lower_query@),
{
    let lower = to_lowercase(field);
    let cs = chars_of(lower.as_str());
    contains_chars(cs.as_slice(), lower_query)
}

/// Appends `label`, `value` and a line feed when the value is there.
fn push_opt_line(out: &mut String, label: &str, value: &Option<String>)
    ensures
        final(out)@ == old(out)@ + opt_line(label@, opt_view(*value)),
{
    match value {
        Some(v) => {
            out.append(label);
            out.append(v.as_str());
            out.append("\n");
        },
        None => {
            assert(old(out)@ + Seq::<char>::empty() =~= old(out)@);
        },
    }
}

impl CalendarInfo {
    /// The listing line of the calendar: `- name [account] (url)`.
    pub fn display(&self) -> (r: String)
        ensures
            r@ == calendar_line(self@),
    {
        let mut s = String::from_str("- ");
        s.append(self.name.as_str());
        s.append(" [");
        s.append(self.account_name.as_str());
        s.append("] (");
        s.append(self.url.as_str());
        s.append(")");
        s
    }
}

impl EventSummary {
    /// A copy of the event.
    pub fn duplicate(&self) -> (r: EventSummary)
        ensures
            r@ == self@,
    {
        EventSummary {
            uid: self.uid.clone(),
            summary: self.summary.clone(),
            dtstart: self.dtstart,
            dtend: self.dtend,
            location: clone_opt(&self.location),
            description: clone_opt(&self.description),
            is_recurring: self.is_recurring,
            url: self.url.clone(),
            dtstart_tz: duplicate_opt(&self.dtstart_tz),
        }
    }

    /// Case-insensitive match on summary, description, or location.
    /// An empty query matches everything.
    pub fn matches_query(&self, query: &str) -> (r: bool)
        ensures
            r == query_matches(self@, query@),
    {
        if query.is_empty() {
            return true;
        }
        let q = to_lowercase(query);
        let qc = chars_of(q.as_str());
        if field_contains(self.summary.as_str(), qc.as_slice()) {
            return true;
        }
        if let Some(d) = &self.description {
            if field_contains(d.as_str(), qc.as_slice()) {
                return true;
            }
        }
        if let Some(l) = &self.location {
            if field_contains(l.as_str(), qc.as_slice()) {
                return true;
            }
        }
        false
    }

    /// The listing line of the event:
    /// `- summary | start UTC[ -> end UTC][ (recurring)] [uid]`.
    pub fn display(&self) -> (r: String)
        requires
            summary_times_valid(self@),
        ensures
            r@ == event_line(self@),
    {
        let start = format_utc(self.dtstart, "%Y-%m-%d %H:%M UTC");
        let mut s = String::from_str("- ");
        s.append(self.summary.as_str());
        s.append(" | ");
        s.append(start.as_str());
        let ghost before_end = s@;
        match self.dtend {
            Some(t) => {
                let end = format_utc(t, "%Y-%m-%d %H:%M UTC");
                s.append(" -> ");
                s.append(end.as_str());
            },
            None => {
                assert(before_end + Seq::<char>::empty() =~= before_end);
            },
        }
        let ghost before_rec = s@;
        if self.is_recurring {
            s.append(" (recurring)");
        } else {
            assert(before_rec + Seq::<char>::empty() =~= before_rec);
        }
        s.append(" [");
        s.append(self.uid.as_str());
        s.append("]");
        s
    }
}

impl EventInstance {
    /// The listing line of the occurrence:
    /// `- summary | local start -> local end (instance of uid)`.
    pub fn display(&self) -> (r: String)
        ensures
            r@ == instance_line(self@),
    {
        let mut s = String::from_str("- ");
        s.append(self.summary.as_str());
        s.append(" | ");
        s.append(self.local_start.as_str());
        s.append(" -> ");
        s.append(self.local_end.as_str());
        s.append(" (instance of ");
        s.append(self.master_uid.as_str());
        s.append(")");
        s
    }
}

impl EventDetail {
    fn head_text(&self) -> (r: String)
        requires
            detail_times_valid(self@),
        ensures
            r@ == detail_head(self@),
    {
        let mut s = String::from_str("Event: ");
        s.append(self.summary.as_str());
        s.append("\n");
        s.append("  UID: ");
        s.append(self.uid.as_str());
        s.append("\n");
        s.append("  Start: ");
        s.append(self.local_start.as_str());
        s.append(" (");
        let start = format_utc(self.dtstart, "%Y-%m-%d %H:%M UTC");
        s.append(start.as_str());
        s.append(")\n");
        s
    }

    fn end_text(&self) -> (r: String)
        requires
            detail_times_valid(self@),
        ensures
            r@ == detail_end_line(self@),
    {
        let mut s = String::new();
        match &self.local_end {
            Some(end) => {
                s.append("  End: ");
                s.append(end.as_str());
                s.append(" (");
                let ghost before = s@;
                match self.dtend {
                    Some(t) => {
                        let e = format_utc(t, "%Y-%m-%d %H:%M");
                        s.append(e.as_str());
                    },
                    None => {
                        assert(before + Seq::<char>::empty() =~= before);
                    },
                }
                s.append(" UTC)\n");
                assert(s@ =~= detail_end_line(self@));
            },
            None => {
                assert(s@ =~= detail_end_line(self@));
            },
        }
        s
    }

    fn attendees_text(&self) -> (r: String)
        ensures
            r@ == detail_attendees(self@),
    {
        let mut s = String::new();
        if self.attendees.len() > 0 {
            s.append("  Attendees: ");
            let joined = join_strings(&self.attendees, ", ");
            s.append(joined.as_str());
            s.append("\n");
            assert(s@ =~= detail_attendees(self@));
        } else {
            assert(s@ =~= detail_attendees(self@));
        }
        s
    }

    /// The full description of the event, one labelled line per field that
    /// is present.
    pub fn display(&self) -> (r: String)
        requires
            detail_times_valid(self@),
        ensures
            r@ == detail_text(self@),
    {
        let mut s = self.head_text();
        let end = self.end_text();
        s.append(end.as_str());
        push_opt_line(&mut s, "  Location: ", &self.location);
        push_opt_line(&mut s, "  Description: ", &self.description);
        push_opt_line(&mut s, "  Organizer: ", &self.organizer);
        let att = self.attendees_text();
        s.append(att.as_str());
        push_opt_line(&mut s, "  Recurrence: ", &self.rrule);
        s
    }
}

} // verus!

verus! {

/// Law: whether an event matches a query depends on its summary,
/// description and location alone; two events that agree on those three
/// fields match the same queries, whatever their UID, URL, times or
/// recurrence. The empty query matches every event.
pub proof fn law_query_reads_only_text_fields(
    a: EventSummaryView,
    b: EventSummaryView,
    query: Seq<char>,
)
    requires
        a.summary == b.summary,
        a.description == b.description,
        a.location == b.location,
    ensures
        query_matches(a, query) == query_matches(b, query),
        query.len() == 0 ==> query_matches(a, query),
{
}

/// The lower-cased form of an optional text.
pub open spec fn lowered(o: Option<Seq<char>>) -> Option<Seq<char>> {
    match o {
        Some(t) => Some(spec_to_lowercase(t)),
        None => None,
    }
}

/// Law: matching ignores case on both sides: events whose summary,
/// description and location agree once lower-cased, and non-empty queries
/// that agree once lower-cased, give the same answer.
pub proof fn law_matching_ignores_case(
    a: EventSummaryView,
    b: EventSummaryView,
    qa: Seq<char>,
    qb: Seq<char>,
)
    requires
        spec_to_lowercase(a.summary) == spec_to_lowercase(b.summary),
        lowered(a.description) == lowered(b.description),
        lowered(a.location) == lowered(b.location),
        spec_to_lowercase(qa) == spec_to_lowercase(qb),
        qa.len() > 0,
        qb.len() > 0,
    ensures
        query_matches(a, qa) == query_matches(b, qb),
{
}

} // verus!
