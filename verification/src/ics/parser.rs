//! The layered ICS parser.
//!
//! Layer 1 reads the text with the `icalendar` crate; when that fails or finds
//! no usable VEVENT, layer 2 scans the text with regular expressions, which
//! also copes with servers that emit non-compliant ICS.
use vstd::prelude::*;

use icalendar::Component;

use crate::error::{CalDavError, CalDavErrorView};
use crate::ics::timezone::{
    extract_timezones, format_datetime, formatted, opt_tz_view, parse_datetime,
    parsed_datetime, resolve_timezone, tz_map_of, ts_valid, zone_of, Tz, TzMap,
};
use crate::ics::types::{
    detail_times_valid, summary_times_valid, EventDetail, EventDetailView, EventSummary,
    EventSummaryView,
};
use crate::text::{chars_of, opt_view, seq_eq, string_from_chars, trim, trim_chars};

verus! {

// --- Layer 1: the icalendar crate ---

/// A property of a VEVENT as the `icalendar` crate reads it.
pub struct IcalProperty {
    pub name: String,
    pub value: String,
    /// The value of the property's TZID parameter.
    pub tzid: Option<String>,
}

/// The mathematical value of an `IcalProperty`.
pub struct IcalPropertyView {
    pub name: Seq<char>,
    pub value: Seq<char>,
    pub tzid: Option<Seq<char>>,
}

impl View for IcalProperty {
    type V = IcalPropertyView;

    open spec fn view(&self) -> IcalPropertyView {
        IcalPropertyView { name: self.name@, value: self.value@, tzid: opt_view(self.tzid) }
    }
}

/// A VEVENT as the `icalendar` crate reads it: its single-valued properties
/// and the values of its ATTENDEE properties.
pub struct IcalEvent {
    pub properties: Vec<IcalProperty>,
    pub attendees: Vec<String>,
}

/// The mathematical value of an `IcalEvent`.
pub struct IcalEventView {
    pub properties: Seq<IcalPropertyView>,
    pub attendees: Seq<Seq<char>>,
}

impl View for IcalEvent {
    type V = IcalEventView;

    open spec fn view(&self) -> IcalEventView {
        IcalEventView {
            properties: self.properties@.map_values(|p: IcalProperty| p@),
            attendees: self.attendees@.map_values(|a: String| a@),
        }
    }
}

/// The components that the `icalendar` crate reads from a text (`None` for
/// a component that is not a VEVENT), taking the named parameter of each
/// property and the values of the named multi-property, or its error text.
pub uninterp spec fn spec_ical_components(ics: Seq<char>, param: Seq<char>, multi: Seq<char>) -> Result<
    Seq<Option<IcalEventView>>,
    Seq<char>,
>;

/// The views of components.
pub open spec fn components_view(v: Seq<Option<IcalEvent>>) -> Seq<Option<IcalEventView>> {
    v.map_values(
        |c: Option<IcalEvent>|
            match c {
                Some(e) => Some(e@),
                None => None,
            },
    )
}

/// Parses a text with `icalendar::Calendar`'s `FromStr` and lists its
/// components: each VEVENT with its properties (name, value, `param`
/// parameter) and the values of its `multi` multi-property. The result is
/// named `spec_ical_components`.
#[verifier::external_body]
fn ical_components(ics: &str, param: &str, multi: &str) -> (r: Result<Vec<Option<IcalEvent>>, String>)
    ensures
        match r {
            Ok(v) => spec_ical_components(ics@, param@, multi@) == Ok::<
                Seq<Option<IcalEventView>>,
                Seq<char>,
            >(components_view(v@)),
            Err(e) => spec_ical_components(ics@, param@, multi@) == Err::<
                Seq<Option<IcalEventView>>,
                Seq<char>,
            >(e@),
        },
{
    let cal = ics.parse::<icalendar::Calendar>()?;
    Ok(cal.components.iter().map(|c| match c {
        icalendar::CalendarComponent::Event(ev) => Some(IcalEvent {
            properties: ev.properties().iter().map(|(k, p)| IcalProperty {
                name: k.clone(), value: p.value().to_string(),
                tzid: p.params().get(param).map(|t| t.value().to_string()),
            }).collect(),
            attendees: ev.multi_properties().get(multi)
                .map(|ps| ps.iter().map(|p| p.value().to_string()).collect()).unwrap_or_default(),
        }),
        _ => None,
    }).collect())
}

/// The index of the first property named `name`, from position `i` on.
pub open spec fn prop_index_from(props: Seq<IcalPropertyView>, name: Seq<char>, i: int) -> Option<
    int,
>
    decreases props.len() - i,
{
    if i < 0 || i >= props.len() {
        None
    } else if props[i].name == name {
        Some(i)
    } else {
        prop_index_from(props, name, i + 1)
    }
}

/// The property named `name`, if there is one.
pub open spec fn prop_named(props: Seq<IcalPropertyView>, name: Seq<char>) -> Option<
    IcalPropertyView,
> {
    match prop_index_from(props, name, 0) {
        Some(k) => Some(props[k]),
        None => None,
    }
}

/// The value of the property named `name`, if there is one.
pub open spec fn prop_value(props: Seq<IcalPropertyView>, name: Seq<char>) -> Option<Seq<char>> {
    match prop_named(props, name) {
        Some(p) => Some(p.value),
        None => None,
    }
}

/// A text, or a default when there is none.
pub open spec fn or_default(o: Option<Seq<char>>, d: Seq<char>) -> Seq<char> {
    match o {
        Some(s) => s,
        None => d,
    }
}

/// The instant of a date-time property.
pub open spec fn prop_datetime(
    props: Seq<IcalPropertyView>,
    name: Seq<char>,
    map: Map<Seq<char>, Seq<char>>,
) -> Result<i64, CalDavErrorView> {
    match prop_named(props, name) {
        Some(p) => parsed_datetime(p.value, p.tzid, map),
        None => Err(CalDavErrorView::IcsParseError("missing "@ + name)),
    }
}

/// The zone that a DTSTART's TZID stands for, if it has one.
pub open spec fn dtstart_zone(tzid: Option<Seq<char>>, map: Map<Seq<char>, Seq<char>>) -> Option<
    Seq<char>,
> {
    match tzid {
        Some(id) => zone_of(map, id),
        None => None,
    }
}

/// The successful value of a result, if any.
pub open spec fn ok_of(r: Result<i64, CalDavErrorView>) -> Option<i64> {
    match r {
        Ok(t) => Some(t),
        Err(_) => None,
    }
}

/// The TZID of a VEVENT's DTSTART property.
pub open spec fn dtstart_tzid(props: Seq<IcalPropertyView>) -> Option<Seq<char>> {
    match prop_named(props, "DTSTART"@) {
        Some(p) => p.tzid,
        None => None,
    }
}

/// The event that a VEVENT describes, unless its DTSTART cannot be read.
pub open spec fn ical_summary(
    ev: IcalEventView,
    url: Seq<char>,
    map: Map<Seq<char>, Seq<char>>,
) -> Option<EventSummaryView> {
    let props = ev.properties;
    match prop_datetime(props, "DTSTART"@, map) {
        Ok(dtstart) => Some(
            EventSummaryView {
                uid: or_default(prop_value(props, "UID"@), "unknown"@),
                summary: or_default(prop_value(props, "SUMMARY"@), "(no title)"@),
                dtstart,
                dtend: ok_of(prop_datetime(props, "DTEND"@, map)),
                location: prop_value(props, "LOCATION"@),
                description: prop_value(props, "DESCRIPTION"@),
                is_recurring: prop_value(props, "RRULE"@) is Some,
                url,
                dtstart_tz: dtstart_zone(dtstart_tzid(props), map),
            },
        ),
        Err(_) => None,
    }
}

/// The events of the VEVENT components, in order.
pub open spec fn ical_summaries(
    comps: Seq<Option<IcalEventView>>,
    url: Seq<char>,
    map: Map<Seq<char>, Seq<char>>,
) -> Seq<EventSummaryView>
    decreases comps.len(),
{
    if comps.len() == 0 {
        Seq::empty()
    } else {
        let rest = ical_summaries(comps.drop_last(), url, map);
        match comps.last() {
            Some(ev) => match ical_summary(ev, url, map) {
                Some(e) => rest.push(e),
                None => rest,
            },
            None => rest,
        }
    }
}

/// The local text of an optional instant in a zone.
pub open spec fn local_text(t: Option<i64>, zone: Option<Seq<char>>) -> Option<Seq<char>> {
    match t {
        Some(e) => Some(formatted(e, zone).1),
        None => None,
    }
}

/// The full description of an event that a VEVENT gives, unless its DTSTART
/// cannot be read; times are shown in the DTSTART's zone.
pub open spec fn ical_detail(
    ev: IcalEventView,
    url: Seq<char>,
    map: Map<Seq<char>, Seq<char>>,
) -> Option<EventDetailView> {
    let props = ev.properties;
    match prop_datetime(props, "DTSTART"@, map) {
        Ok(dtstart) => {
            let zone = dtstart_zone(dtstart_tzid(props), map);
            let dtend = ok_of(prop_datetime(props, "DTEND"@, map));
            Some(
                EventDetailView {
                    uid: or_default(prop_value(props, "UID"@), "unknown"@),
                    summary: or_default(prop_value(props, "SUMMARY"@), "(no title)"@),
                    description: prop_value(props, "DESCRIPTION"@),
                    dtstart,
                    dtend,
                    location: prop_value(props, "LOCATION"@),
                    organizer: prop_value(props, "ORGANIZER"@),
                    attendees: ev.attendees,
                    rrule: prop_value(props, "RRULE"@),
                    is_recurring: prop_value(props, "RRULE"@) is Some,
                    url,
                    local_start: formatted(dtstart, zone).1,
                    local_end: local_text(dtend, zone),
                },
            )
        },
        Err(_) => None,
    }
}

/// The descriptions of the VEVENT components, in order.
pub open spec fn ical_details(
    comps: Seq<Option<IcalEventView>>,
    url: Seq<char>,
    map: Map<Seq<char>, Seq<char>>,
) -> Seq<EventDetailView>
    decreases comps.len(),
{
    if comps.len() == 0 {
        Seq::empty()
    } else {
        let rest = ical_details(comps.drop_last(), url, map);
        match comps.last() {
            Some(ev) => match ical_detail(ev, url, map) {
                Some(e) => rest.push(e),
                None => rest,
            },
            None => rest,
        }
    }
}

/// What layer 1 makes of a text: the events of its VEVENTs, or the parse error.
pub open spec fn ical_events_of(ics: Seq<char>, url: Seq<char>) -> Result<
    Seq<EventSummaryView>,
    CalDavErrorView,
> {
    match spec_ical_components(ics, "TZID"@, "ATTENDEE"@) {
        Ok(comps) => Ok(ical_summaries(comps, url, tz_map_of(ics))),
        Err(e) => Err(CalDavErrorView::IcsParseError("icalendar parse error: "@ + e)),
    }
}

/// What layer 1 makes of a text: the descriptions of its VEVENTs, or the
/// parse error.
pub open spec fn ical_details_of(ics: Seq<char>, url: Seq<char>) -> Result<
    Seq<EventDetailView>,
    CalDavErrorView,
> {
    match spec_ical_components(ics, "TZID"@, "ATTENDEE"@) {
        Ok(comps) => Ok(ical_details(comps, url, tz_map_of(ics))),
        Err(e) => Err(CalDavErrorView::IcsParseError("icalendar parse error: "@ + e)),
    }
}

/// The views of events.
pub open spec fn summary_views(v: Seq<EventSummary>) -> Seq<EventSummaryView> {
    v.map_values(|e: EventSummary| e@)
}

/// The views of event descriptions.
pub open spec fn detail_views(v: Seq<EventDetail>) -> Seq<EventDetailView> {
    v.map_values(|e: EventDetail| e@)
}

/// The index of the first property named `name`.
fn find_prop(props: &Vec<IcalProperty>, name: &str) -> (r: Option<usize>)
    ensures
        match r {
            Some(k) => k < props@.len() && prop_index_from(
                props@.map_values(|p: IcalProperty| p@),
                name@,
                0,
            ) == Some(k as int),
            None => prop_index_from(props@.map_values(|p: IcalProperty| p@), name@, 0) is None,
        },
{
    let ghost pv = props@.map_values(|p: IcalProperty| p@);
    let key = chars_of(name);
    let mut i: usize = 0;
    while i < props.len()
        invariant
            0 <= i <= props@.len(),
            pv == props@.map_values(|p: IcalProperty| p@),
            key@ == name@,
            prop_index_from(pv, name@, 0) == prop_index_from(pv, name@, i as int),
        decreases props@.len() - i,
    {
        let pk = chars_of(props[i].name.as_str());
        if seq_eq(pk.as_slice(), key.as_slice()) {
            return Some(i);
        }
        i += 1;
    }
    None
}

/// The value of the property named `name`, copied.
fn find_value(props: &Vec<IcalProperty>, name: &str) -> (r: Option<String>)
    ensures
        opt_view(r) == prop_value(props@.map_values(|p: IcalProperty| p@), name@),
{
    match find_prop(props, name) {
        Some(k) => Some(props[k].value.clone()),
        None => None,
    }
}

/// The value of the property named `name`, or a default.
fn value_or(props: &Vec<IcalProperty>, name: &str, default: &str) -> (r: String)
    ensures
        r@ == or_default(prop_value(props@.map_values(|p: IcalProperty| p@), name@), default@),
{
    match find_value(props, name) {
        Some(v) => v,
        None => String::from_str(default),
    }
}

/// The view of an optional text reference.
pub open spec fn opt_str_view(o: Option<&str>) -> Option<Seq<char>> {
    match o {
        Some(s) => Some(s@),
        None => None,
    }
}

/// The view of a date-time result.
pub open spec fn dt_view(r: Result<i64, CalDavError>) -> Result<i64, CalDavErrorView> {
    match r {
        Ok(t) => Ok(t),
        Err(e) => Err(e@),
    }
}

/// Reads the date-time property `prop_name` of a VEVENT.
pub fn extract_datetime_from_properties(
    props: &Vec<IcalProperty>,
    prop_name: &str,
    tz_map: &TzMap,
) -> (r: Result<i64, CalDavError>)
    ensures
        dt_view(r) == prop_datetime(props@.map_values(|p: IcalProperty| p@), prop_name@, tz_map@),
        r matches Ok(t) ==> ts_valid(t as int),
{
    match find_prop(props, prop_name) {
        Some(k) => {
            let prop = &props[k];
            let tzid: Option<&str> = match &prop.tzid {
                Some(t) => Some(t.as_str()),
                None => None,
            };
            parse_datetime(prop.value.as_str(), tzid, tz_map)
        },
        None => {
            let mut m = String::from_str("missing ");
            m.append(prop_name);
            Err(CalDavError::IcsParseError(m))
        },
    }
}

/// The zone of a DTSTART's TZID: the table's entry, else what the TZID
/// resolves to.
pub fn resolve_dtstart_tz(tzid: Option<&str>, tz_map: &TzMap) -> (r: Option<Tz>)
    ensures
        opt_tz_view(r) == dtstart_zone(opt_str_view(tzid), tz_map@),
{
    match tzid {
        Some(id) => match tz_map.get(id) {
            Some(z) => Some(z),
            None => resolve_timezone(id),
        },
        None => None,
    }
}

/// The TZID of a VEVENT's DTSTART property.
fn dtstart_tzid_of(props: &Vec<IcalProperty>) -> (r: Option<&str>)
    ensures
        opt_str_view(r) == dtstart_tzid(props@.map_values(|p: IcalProperty| p@)),
{
    match find_prop(props, "DTSTART") {
        Some(k) => match &props[k].tzid {
            Some(t) => Some(t.as_str()),
            None => None,
        },
        None => None,
    }
}

/// The event that a VEVENT describes, unless its DTSTART cannot be read.
fn summary_from_ical(ev: &IcalEvent, url: &str, tz_map: &TzMap) -> (r: Option<EventSummary>)
    ensures
        match r {
            Some(e) => ical_summary(ev@, url@, tz_map@) == Some(e@) && summary_times_valid(e@),
            None => ical_summary(ev@, url@, tz_map@) is None,
        },
{
    let props = &ev.properties;
    let uid = value_or(props, "UID", "unknown");
    let summary = value_or(props, "SUMMARY", "(no title)");
    let dtstart = match extract_datetime_from_properties(props, "DTSTART", tz_map) {
        Ok(t) => t,
        Err(_) => return None,
    };
    let dtend = match extract_datetime_from_properties(props, "DTEND", tz_map) {
        Ok(t) => Some(t),
        Err(_) => None,
    };
    let dtstart_tz = resolve_dtstart_tz(dtstart_tzid_of(props), tz_map);
    let is_recurring = find_value(props, "RRULE").is_some();
    Some(
        EventSummary {
            uid,
            summary,
            dtstart,
            dtend,
            location: find_value(props, "LOCATION"),
            description: find_value(props, "DESCRIPTION"),
            is_recurring,
            url: String::from_str(url),
            dtstart_tz,
        },
    )
}

/// The full description that a VEVENT gives, unless its DTSTART cannot be read.
fn detail_from_ical(ev: &IcalEvent, url: &str, tz_map: &TzMap) -> (r: Option<EventDetail>)
    ensures
        match r {
            Some(e) => ical_detail(ev@, url@, tz_map@) == Some(e@) && detail_times_valid(e@),
            None => ical_detail(ev@, url@, tz_map@) is None,
        },
{
    let props = &ev.properties;
    let uid = value_or(props, "UID", "unknown");
    let summary = value_or(props, "SUMMARY", "(no title)");
    let dtstart = match extract_datetime_from_properties(props, "DTSTART", tz_map) {
        Ok(t) => t,
        Err(_) => return None,
    };
    let dtend = match extract_datetime_from_properties(props, "DTEND", tz_map) {
        Ok(t) => Some(t),
        Err(_) => None,
    };
    let display_tz = resolve_dtstart_tz(dtstart_tzid_of(props), tz_map);
    let (_, local_start) = format_datetime(dtstart, display_tz.as_ref());
    let local_end = match dtend {
        Some(e) => Some(format_datetime(e, display_tz.as_ref()).1),
        None => None,
    };
    let rrule = find_value(props, "RRULE");
    let is_recurring = rrule.is_some();
    let mut attendees: Vec<String> = Vec::new();
    let mut i: usize = 0;
    while i < ev.attendees.len()
        invariant
            0 <= i <= ev.attendees@.len(),
            attendees@.map_values(|a: String| a@) =~= ev.attendees@.map_values(
                |a: String| a@,
            ).subrange(0, i as int),
        decreases ev.attendees@.len() - i,
    {
        let a = ev.attendees[i].clone();
        let ghost prev = attendees@;
        attendees.push(a);
        assert(attendees@ == prev.push(a));
        assert(attendees@.map_values(|a: String| a@) =~= prev.map_values(|a: String| a@).push(
            ev.attendees@[i as int]@,
        ));
        i += 1;
    }
    assert(ev.attendees@.map_values(|a: String| a@).subrange(0, ev.attendees@.len() as int)
        =~= ev.attendees@.map_values(|a: String| a@));
    Some(
        EventDetail {
            uid,
            summary,
            description: find_value(props, "DESCRIPTION"),
            dtstart,
            dtend,
            location: find_value(props, "LOCATION"),
            organizer: find_value(props, "ORGANIZER"),
            attendees,
            rrule,
            is_recurring,
            url: String::from_str(url),
            local_start,
            local_end,
        },
    )
}

/// All events have times within the range of date-times.
pub open spec fn all_summaries_valid(v: Seq<EventSummary>) -> bool {
    forall|i: int| 0 <= i < v.len() ==> summary_times_valid(#[trigger] v[i]@)
}

/// All descriptions have times within the range of date-times.
pub open spec fn all_details_valid(v: Seq<EventDetail>) -> bool {
    forall|i: int| 0 <= i < v.len() ==> detail_times_valid(#[trigger] v[i]@)
}

/// The events of the components that layer 1 read, in order: one per VEVENT
/// whose DTSTART can be read, with `tz_map` resolving TZIDs.
pub fn summaries_from_components(
    comps: &Vec<Option<IcalEvent>>,
    event_url: &str,
    tz_map: &TzMap,
) -> (r: Vec<EventSummary>)
    ensures
        summary_views(r@) == ical_summaries(components_view(comps@), event_url@, tz_map@),
        all_summaries_valid(r@),
{
    let ghost cv = components_view(comps@);
    let mut events: Vec<EventSummary> = Vec::new();
    let mut i: usize = 0;
    while i < comps.len()
        invariant
            0 <= i <= comps@.len(),
            cv == components_view(comps@),
            summary_views(events@) == ical_summaries(
                cv.subrange(0, i as int),
                event_url@,
                tz_map@,
            ),
            all_summaries_valid(events@),
        decreases comps@.len() - i,
    {
        let ghost prefix = cv.subrange(0, i + 1);
        assert(prefix.drop_last() =~= cv.subrange(0, i as int));
        match &comps[i] {
            Some(ev) => {
                match summary_from_ical(ev, event_url, tz_map) {
                    Some(e) => {
                        let ghost prev = summary_views(events@);
                        events.push(e);
                        assert(summary_views(events@) =~= prev.push(e@));
                    },
                    None => {},
                }
            },
            None => {},
        }
        i += 1;
    }
    assert(cv.subrange(0, comps@.len() as int) =~= cv);
    events
}

/// The descriptions of the components that layer 1 read, in order: one per
/// VEVENT whose DTSTART can be read, with `tz_map` resolving TZIDs.
pub fn details_from_components(
    comps: &Vec<Option<IcalEvent>>,
    event_url: &str,
    tz_map: &TzMap,
) -> (r: Vec<EventDetail>)
    ensures
        detail_views(r@) == ical_details(components_view(comps@), event_url@, tz_map@),
        all_details_valid(r@),
{
    let ghost cv = components_view(comps@);
    let mut details: Vec<EventDetail> = Vec::new();
    let mut i: usize = 0;
    while i < comps.len()
        invariant
            0 <= i <= comps@.len(),
            cv == components_view(comps@),
            detail_views(details@) == ical_details(cv.subrange(0, i as int), event_url@, tz_map@),
            all_details_valid(details@),
        decreases comps@.len() - i,
    {
        let ghost prefix = cv.subrange(0, i + 1);
        assert(prefix.drop_last() =~= cv.subrange(0, i as int));
        match &comps[i] {
            Some(ev) => {
                match detail_from_ical(ev, event_url, tz_map) {
                    Some(e) => {
                        let ghost prev = detail_views(details@);
                        details.push(e);
                        assert(detail_views(details@) =~= prev.push(e@));
                    },
                    None => {},
                }
            },
            None => {},
        }
        i += 1;
    }
    assert(cv.subrange(0, comps@.len() as int) =~= cv);
    details
}

/// Layer 1: reads the events of an ICS text with the `icalendar` crate.
/// A VEVENT whose DTSTART cannot be read is skipped, not the whole text.
pub fn parse_events_icalendar(ics: &str, event_url: &str) -> (r: Result<
    Vec<EventSummary>,
    CalDavError,
>)
    ensures
        match r {
            Ok(v) => ical_events_of(ics@, event_url@) == Ok::<
                Seq<EventSummaryView>,
                CalDavErrorView,
            >(summary_views(v@)) && all_summaries_valid(v@),
            Err(e) => ical_events_of(ics@, event_url@) == Err::<
                Seq<EventSummaryView>,
                CalDavErrorView,
            >(e@),
        },
{
    let comps = match ical_components(ics, "TZID", "ATTENDEE") {
        Ok(c) => c,
        Err(e) => {
            let mut m = String::from_str("icalendar parse error: ");
            m.append(e.as_str());
            return Err(CalDavError::IcsParseError(m));
        },
    };
    let tz_map = extract_timezones(ics);
    Ok(summaries_from_components(&comps, event_url, &tz_map))
}

/// Layer 1: reads the full descriptions of the events of an ICS text with
/// the `icalendar` crate, skipping VEVENTs whose DTSTART cannot be read.
pub fn parse_details_icalendar(ics: &str, event_url: &str) -> (r: Result<
    Vec<EventDetail>,
    CalDavError,
>)
    ensures
        match r {
            Ok(v) => ical_details_of(ics@, event_url@) == Ok::<
                Seq<EventDetailView>,
                CalDavErrorView,
            >(detail_views(v@)) && all_details_valid(v@),
            Err(e) => ical_details_of(ics@, event_url@) == Err::<
                Seq<EventDetailView>,
                CalDavErrorView,
            >(e@),
        },
{
    let comps = match ical_components(ics, "TZID", "ATTENDEE") {
        Ok(c) => c,
        Err(e) => {
            let mut m = String::from_str("icalendar parse error: ");
            m.append(e.as_str());
            return Err(CalDavError::IcsParseError(m));
        },
    };
    let tz_map = extract_timezones(ics);
    Ok(details_from_components(&comps, event_url, &tz_map))
}

// --- Layer 2: regular-expression fallback ---

/// The captures of every match of a regular expression in a text, in order
/// (each with the whole match first and then its groups, `None` for a group
/// that did not take part), or `None` when the pattern does not compile.
pub uninterp spec fn spec_regex_captures(pattern: Seq<char>, text: Seq<char>) -> Option<
    Seq<Seq<Option<Seq<char>>>>,
>;

/// The view of the matches of a regular expression: each match's groups.
pub open spec fn caps_view(caps: Seq<Vec<Option<String>>>) -> Seq<Seq<Option<Seq<char>>>> {
    caps.map_values(|c: Vec<Option<String>>| c@.map_values(|g: Option<String>| opt_view(g)))
}

/// The view of the captures of a regular expression.
pub open spec fn captures_view(r: Option<Vec<Vec<Option<String>>>>) -> Option<
    Seq<Seq<Option<Seq<char>>>>,
> {
    match r {
        Some(v) => Some(caps_view(v@)),
        None => None,
    }
}

/// Compiles a pattern with `regex::Regex::new` and collects
/// `Regex::captures_iter` over a text; the result is named
/// `spec_regex_captures`.
#[verifier::external_body]
fn regex_captures(pattern: &str, text: &str) -> (r: Option<Vec<Vec<Option<String>>>>)
    ensures
        captures_view(r) == spec_regex_captures(pattern@, text@),
{
    let re = regex::Regex::new(pattern).ok()?;
    Some(
        re.captures_iter(text).map(
            |c| c.iter().map(|m| m.map(|m| m.as_str().to_string())).collect(),
        ).collect(),
    )
}

/// A VEVENT block: what lies between `BEGIN:VEVENT` and the next `END:VEVENT`.
pub open spec fn vevent_pattern() -> Seq<char> {
    "(?s)BEGIN:VEVENT\\r?\\n(.*?)END:VEVENT"@
}

/// A property line: name, optional parameters, and value.
pub open spec fn prop_pattern() -> Seq<char> {
    "(?m)^([\\w-]+)(?:;[^:]*)?:(.*)$"@
}

/// A property line with a TZID parameter: name and TZID.
pub open spec fn tzid_pattern() -> Seq<char> {
    "(?m)^(\\w+);.*?TZID=([^;:]+)"@
}

/// Group `i` of a capture.
pub open spec fn group(cap: Seq<Option<Seq<char>>>, i: int) -> Option<Seq<char>> {
    if 0 <= i < cap.len() {
        cap[i]
    } else {
        None
    }
}

/// Group `i` of a capture, copied.
fn group_of(cap: &Vec<Option<String>>, i: usize) -> (r: Option<String>)
    ensures
        opt_view(r) == group(cap@.map_values(|g: Option<String>| opt_view(g)), i as int),
{
    if i < cap.len() {
        match &cap[i] {
            Some(g) => Some(g.clone()),
            None => None,
        }
    } else {
        None
    }
}

/// The VEVENT blocks among captures of `vevent_pattern`, in order.
pub open spec fn blocks_of_caps(caps: Seq<Seq<Option<Seq<char>>>>) -> Seq<Seq<char>>
    decreases caps.len(),
{
    if caps.len() == 0 {
        Seq::empty()
    } else {
        let rest = blocks_of_caps(caps.drop_last());
        match group(caps.last(), 1) {
            Some(b) => rest.push(b),
            None => rest,
        }
    }
}

/// The VEVENT blocks of an ICS text.
pub open spec fn vevent_blocks(ics: Seq<char>) -> Seq<Seq<char>> {
    match spec_regex_captures(vevent_pattern(), ics) {
        Some(caps) => blocks_of_caps(caps),
        None => Seq::empty(),
    }
}

/// A property of a block: its name and its trimmed value.
pub struct PropEntry {
    pub key: String,
    pub value: String,
}

/// The pairs (name, value) of property entries.
pub open spec fn prop_pairs(v: Seq<PropEntry>) -> Seq<(Seq<char>, Seq<char>)> {
    v.map_values(|e: PropEntry| (e.key@, e.value@))
}

/// Some pair has the key `k`.
pub open spec fn has_key(pairs: Seq<(Seq<char>, Seq<char>)>, k: Seq<char>) -> bool {
    exists|i: int| 0 <= i < pairs.len() && #[trigger] pairs[i].0 == k
}

/// The properties that captures of `prop_pattern` give: each name with the
/// trimmed value of its first line; later lines of the same name are ignored.
pub open spec fn props_of_caps(caps: Seq<Seq<Option<Seq<char>>>>) -> Seq<(Seq<char>, Seq<char>)>
    decreases caps.len(),
{
    if caps.len() == 0 {
        Seq::empty()
    } else {
        let init = props_of_caps(caps.drop_last());
        match (group(caps.last(), 1), group(caps.last(), 2)) {
            (Some(k), Some(v)) => if has_key(init, k) {
                init
            } else {
                init.push((k, trim(v)))
            },
            _ => init,
        }
    }
}

/// The properties of a VEVENT block.
pub open spec fn block_props(block: Seq<char>) -> Seq<(Seq<char>, Seq<char>)> {
    match spec_regex_captures(prop_pattern(), block) {
        Some(caps) => props_of_caps(caps),
        None => Seq::empty(),
    }
}

/// The value of the first pair with key `k`, from position `i` on.
pub open spec fn pair_lookup_from(pairs: Seq<(Seq<char>, Seq<char>)>, k: Seq<char>, i: int) -> Option<
    Seq<char>,
>
    decreases pairs.len() - i,
{
    if i < 0 || i >= pairs.len() {
        None
    } else if pairs[i].0 == k {
        Some(pairs[i].1)
    } else {
        pair_lookup_from(pairs, k, i + 1)
    }
}

/// The value of the pair with key `k`.
pub open spec fn pair_lookup(pairs: Seq<(Seq<char>, Seq<char>)>, k: Seq<char>) -> Option<
    Seq<char>,
> {
    pair_lookup_from(pairs, k, 0)
}

/// Whether some entry has the key `key`.
fn has_entry(entries: &Vec<PropEntry>, key: &String) -> (r: bool)
    ensures
        r == has_key(prop_pairs(entries@), key@),
{
    let kc = chars_of(key.as_str());
    let mut i: usize = 0;
    while i < entries.len()
        invariant
            0 <= i <= entries@.len(),
            kc@ == key@,
            forall|j: int| 0 <= j < i ==> #[trigger] prop_pairs(entries@)[j].0 != key@,
        decreases entries@.len() - i,
    {
        let ec = chars_of(entries[i].key.as_str());
        if seq_eq(ec.as_slice(), kc.as_slice()) {
            assert(prop_pairs(entries@)[i as int].0 == key@);
            return true;
        }
        i += 1;
    }
    false
}

/// The properties that the matches of the property pattern give, in order:
/// each name with the trimmed value of its first line; later lines of the
/// same name are ignored.
pub fn properties_from_captures(caps: &Vec<Vec<Option<String>>>) -> (r: Vec<PropEntry>)
    ensures
        prop_pairs(r@) == props_of_caps(caps_view(caps@)),
{
    let ghost cv = caps_view(caps@);
    let mut props: Vec<PropEntry> = Vec::new();
    let mut i: usize = 0;
    while i < caps.len()
        invariant
            0 <= i <= caps@.len(),
            cv == caps_view(caps@),
            prop_pairs(props@) == props_of_caps(cv.subrange(0, i as int)),
        decreases caps@.len() - i,
    {
        let ghost prefix = cv.subrange(0, i + 1);
        assert(prefix.drop_last() =~= cv.subrange(0, i as int));
        let cap = &caps[i];
        let k = group_of(cap, 1);
        let v = group_of(cap, 2);
        match (k, v) {
            (Some(key), Some(value)) => {
                if !has_entry(&props, &key) {
                    let vc = chars_of(value.as_str());
                    let t = trim_chars(vc.as_slice());
                    let ghost prev = prop_pairs(props@);
                    let entry = PropEntry { key, value: string_from_chars(t.as_slice()) };
                    props.push(entry);
                    assert(prop_pairs(props@) =~= prev.push((key@, trim(value@))));
                }
            },
            _ => {},
        }
        i += 1;
    }
    assert(cv.subrange(0, caps@.len() as int) =~= cv);
    props
}

/// The properties of a VEVENT block: each property name with the trimmed
/// value of its first line.
pub fn extract_properties(block: &str) -> (r: Vec<PropEntry>)
    ensures
        prop_pairs(r@) == block_props(block@),
{
    match regex_captures("(?m)^([\\w-]+)(?:;[^:]*)?:(.*)$", block) {
        Some(caps) => properties_from_captures(&caps),
        None => Vec::new(),
    }
}

/// The value of the entry with key `key`, copied.
fn lookup(entries: &Vec<PropEntry>, key: &str) -> (r: Option<String>)
    ensures
        opt_view(r) == pair_lookup(prop_pairs(entries@), key@),
{
    let ghost pairs = prop_pairs(entries@);
    let kc = chars_of(key);
    let mut i: usize = 0;
    while i < entries.len()
        invariant
            0 <= i <= entries@.len(),
            pairs == prop_pairs(entries@),
            kc@ == key@,
            pair_lookup(pairs, key@) == pair_lookup_from(pairs, key@, i as int),
        decreases entries@.len() - i,
    {
        let ec = chars_of(entries[i].key.as_str());
        if seq_eq(ec.as_slice(), kc.as_slice()) {
            return Some(entries[i].value.clone());
        }
        i += 1;
    }
    None
}

/// The TZID of the first property line named `name` that has one, among
/// captures of `tzid_pattern`.
pub open spec fn tzid_in_caps(caps: Seq<Seq<Option<Seq<char>>>>, name: Seq<char>) -> Option<
    Seq<char>,
>
    decreases caps.len(),
{
    if caps.len() == 0 {
        None
    } else if group(caps[0], 1) == Some(name) && group(caps[0], 2) is Some {
        group(caps[0], 2)
    } else {
        tzid_in_caps(caps.drop_first(), name)
    }
}

/// The TZID parameter of the property `name` of a block.
pub open spec fn block_tzid(block: Seq<char>, name: Seq<char>) -> Option<Seq<char>> {
    match spec_regex_captures(tzid_pattern(), block) {
        Some(caps) => tzid_in_caps(caps, name),
        None => None,
    }
}

/// The TZID that the matches of the TZID pattern give for the property
/// `prop_name`: that of the first match naming the property.
pub fn tzid_from_captures(caps: &Vec<Vec<Option<String>>>, prop_name: &str) -> (r: Option<String>)
    ensures
        opt_view(r) == tzid_in_caps(caps_view(caps@), prop_name@),
{
    let ghost cv = caps_view(caps@);
    let name = chars_of(prop_name);
    let mut i: usize = 0;
    assert(cv.skip(0) =~= cv);
    while i < caps.len()
        invariant
            0 <= i <= caps@.len(),
            cv == caps_view(caps@),
            name@ == prop_name@,
            tzid_in_caps(cv, prop_name@) == tzid_in_caps(cv.skip(i as int), prop_name@),
        decreases caps@.len() - i,
    {
        let ghost rest = cv.skip(i as int);
        assert(rest.drop_first() =~= cv.skip(i + 1));
        assert(rest[0] == cv[i as int]);
        let cap = &caps[i];
        let g1 = group_of(cap, 1);
        let g2 = group_of(cap, 2);
        if let Some(k) = &g1 {
            let kc = chars_of(k.as_str());
            if seq_eq(kc.as_slice(), name.as_slice()) && g2.is_some() {
                assert(cv[i as int] == caps@[i as int]@.map_values(
                    |g: Option<String>| opt_view(g),
                ));
                assert(group(rest[0], 1) == Some(prop_name@));
                return g2;
            }
        }
        i += 1;
    }
    None
}

/// The TZID parameter of the property `prop_name` of a VEVENT block: the
/// TZID of the first line of that property that carries one.
pub fn extract_tzid_param(block: &str, prop_name: &str) -> (r: Option<String>)
    ensures
        opt_view(r) == block_tzid(block@, prop_name@),
{
    match regex_captures("(?m)^(\\w+);.*?TZID=([^;:]+)", block) {
        Some(caps) => tzid_from_captures(&caps, prop_name),
        None => None,
    }
}

/// A text, copied into an optional reference.
fn as_opt_str(o: &Option<String>) -> (r: Option<&str>)
    ensures
        opt_str_view(r) == opt_view(*o),
{
    match o {
        Some(s) => Some(s.as_str()),
        None => None,
    }
}

/// The instant of the property `name` of a block, if it has one that can
/// be read.
pub open spec fn block_datetime(
    block: Seq<char>,
    props: Seq<(Seq<char>, Seq<char>)>,
    name: Seq<char>,
    map: Map<Seq<char>, Seq<char>>,
) -> Option<i64> {
    match pair_lookup(props, name) {
        Some(v) => ok_of(parsed_datetime(v, block_tzid(block, name), map)),
        None => None,
    }
}

/// The event that a VEVENT block describes, unless it has no DTSTART or its
/// DTSTART cannot be read.
pub open spec fn fallback_summary(
    block: Seq<char>,
    url: Seq<char>,
    map: Map<Seq<char>, Seq<char>>,
) -> Option<EventSummaryView> {
    let props = block_props(block);
    match pair_lookup(props, "DTSTART"@) {
        Some(raw) => {
            let tzid = block_tzid(block, "DTSTART"@);
            match parsed_datetime(raw, tzid, map) {
                Ok(dtstart) => Some(
                    EventSummaryView {
                        uid: or_default(pair_lookup(props, "UID"@), Seq::empty()),
                        summary: or_default(pair_lookup(props, "SUMMARY"@), "(no title)"@),
                        dtstart,
                        dtend: block_datetime(block, props, "DTEND"@, map),
                        location: pair_lookup(props, "LOCATION"@),
                        description: pair_lookup(props, "DESCRIPTION"@),
                        is_recurring: pair_lookup(props, "RRULE"@) is Some,
                        url,
                        dtstart_tz: dtstart_zone(tzid, map),
                    },
                ),
                Err(_) => None,
            }
        },
        None => None,
    }
}

/// The full description that a VEVENT block gives, unless it has no DTSTART
/// or its DTSTART cannot be read; attendees are not read by this layer.
pub open spec fn fallback_detail(
    block: Seq<char>,
    url: Seq<char>,
    map: Map<Seq<char>, Seq<char>>,
) -> Option<EventDetailView> {
    let props = block_props(block);
    match pair_lookup(props, "DTSTART"@) {
        Some(raw) => {
            let tzid = block_tzid(block, "DTSTART"@);
            match parsed_datetime(raw, tzid, map) {
                Ok(dtstart) => {
                    let zone = dtstart_zone(tzid, map);
                    let dtend = block_datetime(block, props, "DTEND"@, map);
                    Some(
                        EventDetailView {
                            uid: or_default(pair_lookup(props, "UID"@), Seq::empty()),
                            summary: or_default(pair_lookup(props, "SUMMARY"@), "(no title)"@),
                            description: pair_lookup(props, "DESCRIPTION"@),
                            dtstart,
                            dtend,
                            location: pair_lookup(props, "LOCATION"@),
                            organizer: pair_lookup(props, "ORGANIZER"@),
                            attendees: Seq::empty(),
                            rrule: pair_lookup(props, "RRULE"@),
                            is_recurring: pair_lookup(props, "RRULE"@) is Some,
                            url,
                            local_start: formatted(dtstart, zone).1,
                            local_end: local_text(dtend, zone),
                        },
                    )
                },
                Err(_) => None,
            }
        },
        None => None,
    }
}

/// The events of the VEVENT blocks, in order.
pub open spec fn fallback_summaries(
    blocks: Seq<Seq<char>>,
    url: Seq<char>,
    map: Map<Seq<char>, Seq<char>>,
) -> Seq<EventSummaryView>
    decreases blocks.len(),
{
    if blocks.len() == 0 {
        Seq::empty()
    } else {
        let rest = fallback_summaries(blocks.drop_last(), url, map);
        match fallback_summary(blocks.last(), url, map) {
            Some(e) => rest.push(e),
            None => rest,
        }
    }
}

/// The descriptions of the VEVENT blocks, in order.
pub open spec fn fallback_details(
    blocks: Seq<Seq<char>>,
    url: Seq<char>,
    map: Map<Seq<char>, Seq<char>>,
) -> Seq<EventDetailView>
    decreases blocks.len(),
{
    if blocks.len() == 0 {
        Seq::empty()
    } else {
        let rest = fallback_details(blocks.drop_last(), url, map);
        match fallback_detail(blocks.last(), url, map) {
            Some(e) => rest.push(e),
            None => rest,
        }
    }
}

/// What layer 2 makes of a text: the events of its VEVENT blocks, or an
/// error when there is none.
pub open spec fn fallback_events_of(ics: Seq<char>, url: Seq<char>) -> Result<
    Seq<EventSummaryView>,
    CalDavErrorView,
> {
    let evs = fallback_summaries(vevent_blocks(ics), url, tz_map_of(ics));
    if evs.len() == 0 {
        Err(CalDavErrorView::IcsParseError("no VEVENT found"@))
    } else {
        Ok(evs)
    }
}

/// What layer 2 makes of a text: the descriptions of its VEVENT blocks, or
/// an error when there is none.
pub open spec fn fallback_details_of(ics: Seq<char>, url: Seq<char>) -> Result<
    Seq<EventDetailView>,
    CalDavErrorView,
> {
    let ds = fallback_details(vevent_blocks(ics), url, tz_map_of(ics));
    if ds.len() == 0 {
        Err(CalDavErrorView::IcsParseError("no VEVENT found"@))
    } else {
        Ok(ds)
    }
}

/// The VEVENT blocks that the matches of the VEVENT pattern give, in order.
pub fn blocks_from_captures(caps: &Vec<Vec<Option<String>>>) -> (r: Vec<String>)
    ensures
        r@.map_values(|b: String| b@) == blocks_of_caps(caps_view(caps@)),
{
    let ghost cv = caps_view(caps@);
    let mut blocks: Vec<String> = Vec::new();
    let mut i: usize = 0;
    while i < caps.len()
        invariant
            0 <= i <= caps@.len(),
            cv == caps_view(caps@),
            blocks@.map_values(|b: String| b@) == blocks_of_caps(cv.subrange(0, i as int)),
        decreases caps@.len() - i,
    {
        let ghost prefix = cv.subrange(0, i + 1);
        assert(prefix.drop_last() =~= cv.subrange(0, i as int));
        match group_of(&caps[i], 1) {
            Some(b) => {
                let ghost prev = blocks@.map_values(|b: String| b@);
                let ghost bv = b@;
                blocks.push(b);
                assert(blocks@.map_values(|b: String| b@) =~= prev.push(bv));
            },
            None => {},
        }
        i += 1;
    }
    assert(cv.subrange(0, caps@.len() as int) =~= cv);
    blocks
}

/// The VEVENT blocks of an ICS text.
fn vevent_blocks_of(ics: &str) -> (r: Vec<String>)
    ensures
        r@.map_values(|b: String| b@) == vevent_blocks(ics@),
{
    match regex_captures("(?s)BEGIN:VEVENT\\r?\\n(.*?)END:VEVENT", ics) {
        Some(caps) => blocks_from_captures(&caps),
        None => {
            let v: Vec<String> = Vec::new();
            assert(v@.map_values(|b: String| b@) =~= Seq::<Seq<char>>::empty());
            v
        },
    }
}

/// The instant of the property `name` of a block, if it can be read.
fn block_datetime_of(block: &str, props: &Vec<PropEntry>, name: &str, tz_map: &TzMap) -> (r: Option<i64>)
    ensures
        r == block_datetime(block@, prop_pairs(props@), name@, tz_map@),
        r matches Some(t) ==> ts_valid(t as int),
{
    match lookup(props, name) {
        Some(v) => {
            let tzid = extract_tzid_param(block, name);
            match parse_datetime(v.as_str(), as_opt_str(&tzid), tz_map) {
                Ok(t) => Some(t),
                Err(_) => None,
            }
        },
        None => None,
    }
}

/// The event that a VEVENT block describes, unless it has no readable DTSTART.
fn summary_from_block(block: &str, url: &str, tz_map: &TzMap) -> (r: Option<EventSummary>)
    ensures
        match r {
            Some(e) => fallback_summary(block@, url@, tz_map@) == Some(e@) && summary_times_valid(
                e@,
            ),
            None => fallback_summary(block@, url@, tz_map@) is None,
        },
{
    let props = extract_properties(block);
    let uid = match lookup(&props, "UID") {
        Some(u) => u,
        None => String::new(),
    };
    let summary = match lookup(&props, "SUMMARY") {
        Some(s) => s,
        None => String::from_str("(no title)"),
    };
    let dtstart_raw = match lookup(&props, "DTSTART") {
        Some(v) => v,
        None => return None,
    };
    let tzid = extract_tzid_param(block, "DTSTART");
    let dtstart = match parse_datetime(dtstart_raw.as_str(), as_opt_str(&tzid), tz_map) {
        Ok(t) => t,
        Err(_) => return None,
    };
    let dtstart_tz = resolve_dtstart_tz(as_opt_str(&tzid), tz_map);
    let dtend = block_datetime_of(block, &props, "DTEND", tz_map);
    let is_recurring = lookup(&props, "RRULE").is_some();
    Some(
        EventSummary {
            uid,
            summary,
            dtstart,
            dtend,
            location: lookup(&props, "LOCATION"),
            description: lookup(&props, "DESCRIPTION"),
            is_recurring,
            url: String::from_str(url),
            dtstart_tz,
        },
    )
}

/// The full description that a VEVENT block gives, unless it has no
/// readable DTSTART.
fn detail_from_block(block: &str, url: &str, tz_map: &TzMap) -> (r: Option<EventDetail>)
    ensures
        match r {
            Some(e) => fallback_detail(block@, url@, tz_map@) == Some(e@) && detail_times_valid(
                e@,
            ),
            None => fallback_detail(block@, url@, tz_map@) is None,
        },
{
    let props = extract_properties(block);
    let uid = match lookup(&props, "UID") {
        Some(u) => u,
        None => String::new(),
    };
    let summary = match lookup(&props, "SUMMARY") {
        Some(s) => s,
        None => String::from_str("(no title)"),
    };
    let dtstart_raw = match lookup(&props, "DTSTART") {
        Some(v) => v,
        None => return None,
    };
    let tzid = extract_tzid_param(block, "DTSTART");
    let dtstart = match parse_datetime(dtstart_raw.as_str(), as_opt_str(&tzid), tz_map) {
        Ok(t) => t,
        Err(_) => return None,
    };
    let display_tz = resolve_dtstart_tz(as_opt_str(&tzid), tz_map);
    let dtend = block_datetime_of(block, &props, "DTEND", tz_map);
    let (_, local_start) = format_datetime(dtstart, display_tz.as_ref());
    let local_end = match dtend {
        Some(e) => Some(format_datetime(e, display_tz.as_ref()).1),
        None => None,
    };
    let rrule = lookup(&props, "RRULE");
    let is_recurring = rrule.is_some();
    let attendees: Vec<String> = Vec::new();
    assert(attendees@.map_values(|a: String| a@) =~= Seq::<Seq<char>>::empty());
    Some(
        EventDetail {
            uid,
            summary,
            description: lookup(&props, "DESCRIPTION"),
            dtstart,
            dtend,
            location: lookup(&props, "LOCATION"),
            organizer: lookup(&props, "ORGANIZER"),
            attendees,
            rrule,
            is_recurring,
            url: String::from_str(url),
            local_start,
            local_end,
        },
    )
}

/// Layer 2: reads the events of an ICS text block by block. A VEVENT without
/// a readable DTSTART is skipped; finding no event at all is an error.
pub fn parse_events_fallback(ics: &str, event_url: &str) -> (r: Result<
    Vec<EventSummary>,
    CalDavError,
>)
    ensures
        match r {
            Ok(v) => fallback_events_of(ics@, event_url@) == Ok::<
                Seq<EventSummaryView>,
                CalDavErrorView,
            >(summary_views(v@)) && all_summaries_valid(v@),
            Err(e) => fallback_events_of(ics@, event_url@) == Err::<
                Seq<EventSummaryView>,
                CalDavErrorView,
            >(e@),
        },
{
    let tz_map = extract_timezones(ics);
    let blocks = vevent_blocks_of(ics);
    let ghost bv = blocks@.map_values(|b: String| b@);
    let mut events: Vec<EventSummary> = Vec::new();
    let mut i: usize = 0;
    while i < blocks.len()
        invariant
            0 <= i <= blocks@.len(),
            bv == blocks@.map_values(|b: String| b@),
            tz_map@ == tz_map_of(ics@),
            summary_views(events@) == fallback_summaries(
                bv.subrange(0, i as int),
                event_url@,
                tz_map@,
            ),
            all_summaries_valid(events@),
        decreases blocks@.len() - i,
    {
        let ghost prefix = bv.subrange(0, i + 1);
        assert(prefix.drop_last() =~= bv.subrange(0, i as int));
        match summary_from_block(blocks[i].as_str(), event_url, &tz_map) {
            Some(e) => {
                let ghost prev = summary_views(events@);
                events.push(e);
                assert(summary_views(events@) =~= prev.push(e@));
            },
            None => {},
        }
        i += 1;
    }
    assert(bv.subrange(0, blocks@.len() as int) =~= bv);
    if events.len() == 0 {
        Err(CalDavError::IcsParseError(String::from_str("no VEVENT found")))
    } else {
        Ok(events)
    }
}

/// Layer 2: reads the full descriptions of the events of an ICS text block
/// by block; finding no event at all is an error.
pub fn parse_details_fallback(ics: &str, event_url: &str) -> (r: Result<
    Vec<EventDetail>,
    CalDavError,
>)
    ensures
        match r {
            Ok(v) => fallback_details_of(ics@, event_url@) == Ok::<
                Seq<EventDetailView>,
                CalDavErrorView,
            >(detail_views(v@)) && all_details_valid(v@),
            Err(e) => fallback_details_of(ics@, event_url@) == Err::<
                Seq<EventDetailView>,
                CalDavErrorView,
            >(e@),
        },
{
    let tz_map = extract_timezones(ics);
    let blocks = vevent_blocks_of(ics);
    let ghost bv = blocks@.map_values(|b: String| b@);
    let mut details: Vec<EventDetail> = Vec::new();
    let mut i: usize = 0;
    while i < blocks.len()
        invariant
            0 <= i <= blocks@.len(),
            bv == blocks@.map_values(|b: String| b@),
            tz_map@ == tz_map_of(ics@),
            detail_views(details@) == fallback_details(
                bv.subrange(0, i as int),
                event_url@,
                tz_map@,
            ),
            all_details_valid(details@),
        decreases blocks@.len() - i,
    {
        let ghost prefix = bv.subrange(0, i + 1);
        assert(prefix.drop_last() =~= bv.subrange(0, i as int));
        match detail_from_block(blocks[i].as_str(), event_url, &tz_map) {
            Some(e) => {
                let ghost prev = detail_views(details@);
                details.push(e);
                assert(detail_views(details@) =~= prev.push(e@));
            },
            None => {},
        }
        i += 1;
    }
    assert(bv.subrange(0, blocks@.len() as int) =~= bv);
    if details.len() == 0 {
        Err(CalDavError::IcsParseError(String::from_str("no VEVENT found")))
    } else {
        Ok(details)
    }
}

// --- The two layers together ---

/// The events of an ICS text: layer 1's when it reads at least one event,
/// else layer 2's.
pub open spec fn parsed_events(ics: Seq<char>, url: Seq<char>) -> Result<
    Seq<EventSummaryView>,
    CalDavErrorView,
> {
    match ical_events_of(ics, url) {
        Ok(evs) => if evs.len() > 0 {
            Ok(evs)
        } else {
            fallback_events_of(ics, url)
        },
        Err(_) => fallback_events_of(ics, url),
    }
}

/// The event descriptions of an ICS text: layer 1's when it reads at least
/// one, else layer 2's.
pub open spec fn parsed_details(ics: Seq<char>, url: Seq<char>) -> Result<
    Seq<EventDetailView>,
    CalDavErrorView,
> {
    match ical_details_of(ics, url) {
        Ok(ds) => if ds.len() > 0 {
            Ok(ds)
        } else {
            fallback_details_of(ics, url)
        },
        Err(_) => fallback_details_of(ics, url),
    }
}

/// Parse ICS data and extract event summaries.
/// Layer 1: the icalendar crate. Layer 2: the regular-expression fallback.
pub fn parse_events(ics: &str, event_url: &str) -> (r: Result<Vec<EventSummary>, CalDavError>)
    ensures
        match r {
            Ok(v) => parsed_events(ics@, event_url@) == Ok::<
                Seq<EventSummaryView>,
                CalDavErrorView,
            >(summary_views(v@)) && all_summaries_valid(v@),
            Err(e) => parsed_events(ics@, event_url@) == Err::<
                Seq<EventSummaryView>,
                CalDavErrorView,
            >(e@),
        },
{
    match parse_events_icalendar(ics, event_url) {
        Ok(events) => {
            if events.len() > 0 {
                Ok(events)
            } else {
                parse_events_fallback(ics, event_url)
            }
        },
        Err(_) => parse_events_fallback(ics, event_url),
    }
}

/// Parse ICS data and extract full event details (same two layers).
pub fn parse_event_details(ics: &str, event_url: &str) -> (r: Result<
    Vec<EventDetail>,
    CalDavError,
>)
    ensures
        match r {
            Ok(v) => parsed_details(ics@, event_url@) == Ok::<
                Seq<EventDetailView>,
                CalDavErrorView,
            >(detail_views(v@)) && all_details_valid(v@),
            Err(e) => parsed_details(ics@, event_url@) == Err::<
                Seq<EventDetailView>,
                CalDavErrorView,
            >(e@),
        },
{
    match parse_details_icalendar(ics, event_url) {
        Ok(details) => {
            if details.len() > 0 {
                Ok(details)
            } else {
                parse_details_fallback(ics, event_url)
            }
        },
        Err(_) => parse_details_fallback(ics, event_url),
    }
}

} // verus!

verus! {

/// The events that layer 1 reads carry the URL they were read from.
proof fn lemma_ical_summaries_url(
    comps: Seq<Option<IcalEventView>>,
    url: Seq<char>,
    map: Map<Seq<char>, Seq<char>>,
)
    ensures
        forall|i: int|
            0 <= i < ical_summaries(comps, url, map).len() ==> (#[trigger] ical_summaries(
                comps,
                url,
                map,
            )[i]).url == url,
    decreases comps.len(),
{
    if comps.len() > 0 {
        lemma_ical_summaries_url(comps.drop_last(), url, map);
    }
}

/// The events that layer 2 reads carry the URL they were read from.
proof fn lemma_fallback_summaries_url(
    blocks: Seq<Seq<char>>,
    url: Seq<char>,
    map: Map<Seq<char>, Seq<char>>,
)
    ensures
        forall|i: int|
            0 <= i < fallback_summaries(blocks, url, map).len() ==> (#[trigger] fallback_summaries(
                blocks,
                url,
                map,
            )[i]).url == url,
    decreases blocks.len(),
{
    if blocks.len() > 0 {
        lemma_fallback_summaries_url(blocks.drop_last(), url, map);
    }
}

/// Law: reading a resource either fails or yields at least one event, and
/// every event it yields carries the URL of the resource it came from.
pub proof fn law_parsed_events_nonempty_with_url(ics: Seq<char>, url: Seq<char>)
    ensures
        parsed_events(ics, url) matches Ok(evs) ==> evs.len() > 0 && forall|i: int|
            0 <= i < evs.len() ==> (#[trigger] evs[i]).url == url,
{
    match spec_ical_components(ics, "TZID"@, "ATTENDEE"@) {
        Ok(comps) => lemma_ical_summaries_url(comps, url, tz_map_of(ics)),
        Err(_) => {},
    }
    lemma_fallback_summaries_url(vevent_blocks(ics), url, tz_map_of(ics));
}

/// Law: reading the details of a resource either fails or yields at least
/// one event description.
pub proof fn law_parsed_details_nonempty(ics: Seq<char>, url: Seq<char>)
    ensures
        parsed_details(ics, url) matches Ok(ds) ==> ds.len() > 0,
{
}

/// The number of VEVENT components whose DTSTART can be read.
pub open spec fn readable_vevents(
    comps: Seq<Option<IcalEventView>>,
    map: Map<Seq<char>, Seq<char>>,
) -> nat
    decreases comps.len(),
{
    if comps.len() == 0 {
        0
    } else {
        readable_vevents(comps.drop_last(), map) + match comps.last() {
            Some(ev) => if prop_datetime(ev.properties, "DTSTART"@, map) is Ok {
                1nat
            } else {
                0nat
            },
            None => 0nat,
        }
    }
}

proof fn lemma_ical_summaries_count(
    comps: Seq<Option<IcalEventView>>,
    url: Seq<char>,
    map: Map<Seq<char>, Seq<char>>,
)
    ensures
        ical_summaries(comps, url, map).len() == readable_vevents(comps, map),
    decreases comps.len(),
{
    if comps.len() > 0 {
        lemma_ical_summaries_count(comps.drop_last(), url, map);
    }
}

proof fn lemma_ical_details_shape(
    comps: Seq<Option<IcalEventView>>,
    url: Seq<char>,
    map: Map<Seq<char>, Seq<char>>,
)
    ensures
        ical_details(comps, url, map).len() == readable_vevents(comps, map),
        forall|i: int|
            0 <= i < ical_details(comps, url, map).len() ==> (#[trigger] ical_details(
                comps,
                url,
                map,
            )[i]).url == url && ical_details(comps, url, map)[i].is_recurring == ical_details(
                comps,
                url,
                map,
            )[i].rrule is Some,
    decreases comps.len(),
{
    if comps.len() > 0 {
        lemma_ical_details_shape(comps.drop_last(), url, map);
    }
}

/// Law: layer 1 fails exactly when the `icalendar` crate cannot read the
/// text. Otherwise it yields one event per VEVENT whose DTSTART can be read,
/// the others being skipped rather than failing the text, and every event
/// carries the URL it was read from.
pub proof fn law_ical_events_one_per_readable_vevent(ics: Seq<char>, url: Seq<char>)
    ensures
        ical_events_of(ics, url) is Err <==> spec_ical_components(ics, "TZID"@, "ATTENDEE"@) is Err,
        spec_ical_components(ics, "TZID"@, "ATTENDEE"@) matches Ok(comps) ==> ical_events_of(
            ics,
            url,
        ) matches Ok(evs) && evs.len() == readable_vevents(comps, tz_map_of(ics)) && forall|i: int|
            0 <= i < evs.len() ==> (#[trigger] evs[i]).url == url,
{
    match spec_ical_components(ics, "TZID"@, "ATTENDEE"@) {
        Ok(comps) => {
            lemma_ical_summaries_count(comps, url, tz_map_of(ics));
            lemma_ical_summaries_url(comps, url, tz_map_of(ics));
        },
        Err(_) => {},
    }
}

/// Law: layer 1's descriptions are one per VEVENT whose DTSTART can be read;
/// each carries the URL it was read from and is marked recurring exactly
/// when it has an RRULE. A VEVENT without UID is described with the UID
/// `unknown`, and one without SUMMARY with the title `(no title)`.
pub proof fn law_ical_details_shape(ics: Seq<char>, url: Seq<char>, ev: IcalEventView)
    ensures
        ical_details_of(ics, url) is Err <==> spec_ical_components(ics, "TZID"@, "ATTENDEE"@) is Err,
        spec_ical_components(ics, "TZID"@, "ATTENDEE"@) matches Ok(comps) ==> ical_details_of(
            ics,
            url,
        ) matches Ok(ds) && ds.len() == readable_vevents(comps, tz_map_of(ics)) && forall|i: int|
            0 <= i < ds.len() ==> (#[trigger] ds[i]).url == url && ds[i].is_recurring
                == ds[i].rrule is Some,
        ical_detail(ev, url, tz_map_of(ics)) matches Some(d) ==> (prop_value(
            ev.properties,
            "UID"@,
        ) is None ==> d.uid == "unknown"@) && (prop_value(ev.properties, "SUMMARY"@) is None
            ==> d.summary == "(no title)"@),
{
    match spec_ical_components(ics, "TZID"@, "ATTENDEE"@) {
        Ok(comps) => {
            lemma_ical_details_shape(comps, url, tz_map_of(ics));
        },
        Err(_) => {},
    }
}

/// The number of VEVENT blocks that the fallback reads an event from.
pub open spec fn readable_blocks(
    blocks: Seq<Seq<char>>,
    url: Seq<char>,
    map: Map<Seq<char>, Seq<char>>,
) -> nat
    decreases blocks.len(),
{
    if blocks.len() == 0 {
        0
    } else {
        readable_blocks(blocks.drop_last(), url, map) + if fallback_summary(
            blocks.last(),
            url,
            map,
        ) is Some {
            1nat
        } else {
            0nat
        }
    }
}

proof fn lemma_fallback_count(
    blocks: Seq<Seq<char>>,
    url: Seq<char>,
    map: Map<Seq<char>, Seq<char>>,
)
    ensures
        fallback_summaries(blocks, url, map).len() == readable_blocks(blocks, url, map),
        readable_blocks(blocks, url, map) == 0 <==> forall|i: int|
            0 <= i < blocks.len() ==> fallback_summary(#[trigger] blocks[i], url, map) is None,
    decreases blocks.len(),
{
    if blocks.len() > 0 {
        let init = blocks.drop_last();
        lemma_fallback_count(init, url, map);
        if readable_blocks(blocks, url, map) == 0 {
            assert forall|i: int| 0 <= i < blocks.len() implies fallback_summary(
                #[trigger] blocks[i],
                url,
                map,
            ) is None by {
                if i < init.len() {
                    assert(blocks[i] == init[i]);
                }
            }
        } else if fallback_summary(blocks.last(), url, map) is None {
            let k = choose|i: int|
                0 <= i < init.len() && !(fallback_summary(#[trigger] init[i], url, map) is None);
            assert(blocks[k] == init[k]);
        } else {
            assert(fallback_summary(blocks[blocks.len() - 1], url, map) is Some);
        }
    }
}

/// Law: the fallback reads an event from a VEVENT block exactly when the
/// block has a DTSTART property whose value can be read; it fails exactly
/// when no block gives an event, and otherwise yields one event per such
/// block, each carrying the URL it was read from.
pub proof fn law_fallback_one_event_per_readable_block(
    ics: Seq<char>,
    url: Seq<char>,
    block: Seq<char>,
)
    ensures
        fallback_summary(block, url, tz_map_of(ics)) is Some <==> (pair_lookup(
            block_props(block),
            "DTSTART"@,
        ) matches Some(raw) && parsed_datetime(raw, block_tzid(block, "DTSTART"@), tz_map_of(ics))
            is Ok),
        fallback_events_of(ics, url) is Err <==> forall|i: int|
            0 <= i < vevent_blocks(ics).len() ==> fallback_summary(
                #[trigger] vevent_blocks(ics)[i],
                url,
                tz_map_of(ics),
            ) is None,
        fallback_events_of(ics, url) matches Ok(evs) ==> evs.len() == readable_blocks(
            vevent_blocks(ics),
            url,
            tz_map_of(ics),
        ) && forall|i: int| 0 <= i < evs.len() ==> (#[trigger] evs[i]).url == url,
{
    lemma_fallback_count(vevent_blocks(ics), url, tz_map_of(ics));
    lemma_fallback_summaries_url(vevent_blocks(ics), url, tz_map_of(ics));
}

/// The value that the first match naming the property `k` gives, trimmed.
pub open spec fn first_prop_value(caps: Seq<Seq<Option<Seq<char>>>>, k: Seq<char>) -> Option<
    Seq<char>,
>
    decreases caps.len(),
{
    if caps.len() == 0 {
        None
    } else {
        match (group(caps[0], 1), group(caps[0], 2)) {
            (Some(n), Some(v)) => if n == k {
                Some(trim(v))
            } else {
                first_prop_value(caps.drop_first(), k)
            },
            _ => first_prop_value(caps.drop_first(), k),
        }
    }
}

/// The value that one match gives for the property `k`.
pub open spec fn cap_prop_value(cap: Seq<Option<Seq<char>>>, k: Seq<char>) -> Option<Seq<char>> {
    match (group(cap, 1), group(cap, 2)) {
        (Some(n), Some(v)) => if n == k {
            Some(trim(v))
        } else {
            None
        },
        _ => None,
    }
}

proof fn lemma_first_prop_value_last(caps: Seq<Seq<Option<Seq<char>>>>, k: Seq<char>)
    requires
        caps.len() > 0,
    ensures
        first_prop_value(caps, k) == match first_prop_value(caps.drop_last(), k) {
            Some(v) => Some(v),
            None => cap_prop_value(caps.last(), k),
        },
    decreases caps.len(),
{
    if caps.len() > 1 {
        lemma_first_prop_value_last(caps.drop_first(), k);
        assert(caps.drop_first().drop_last() =~= caps.drop_last().drop_first());
        assert(caps.drop_last()[0] == caps[0]);
        assert(caps.drop_first().last() == caps.last());
    } else {
        assert(caps.drop_last().len() == 0);
        assert(caps.drop_first().len() == 0);
        assert(caps[0] == caps.last());
        assert(first_prop_value(caps.drop_first(), k) is None);
        assert(first_prop_value(caps.drop_last(), k) is None);
    }
}

proof fn lemma_pair_lookup_from_push(
    s: Seq<(Seq<char>, Seq<char>)>,
    x: (Seq<char>, Seq<char>),
    k: Seq<char>,
    i: int,
)
    requires
        0 <= i <= s.len(),
    ensures
        pair_lookup_from(s.push(x), k, i) == match pair_lookup_from(s, k, i) {
            Some(v) => Some(v),
            None => if x.0 == k {
                Some(x.1)
            } else {
                None
            },
        },
    decreases s.len() - i,
{
    if i < s.len() {
        assert(s.push(x)[i] == s[i]);
        lemma_pair_lookup_from_push(s, x, k, i + 1);
    } else {
        assert(s.push(x)[i] == x);
        assert(pair_lookup_from(s.push(x), k, i + 1) is None);
    }
}

proof fn lemma_has_key_lookup(s: Seq<(Seq<char>, Seq<char>)>, k: Seq<char>, i: int)
    requires
        0 <= i <= s.len(),
    ensures
        pair_lookup_from(s, k, i) is Some <==> exists|j: int| i <= j < s.len() && #[trigger] s[j].0
            == k,
    decreases s.len() - i,
{
    if i < s.len() {
        lemma_has_key_lookup(s, k, i + 1);
        if pair_lookup_from(s, k, i) is None {
            assert forall|j: int| i <= j < s.len() implies #[trigger] s[j].0 != k by {
                if j > i {
                    assert(!(exists|j: int| i + 1 <= j < s.len() && #[trigger] s[j].0 == k));
                }
            }
        }
    }
}

/// Law: the properties of a VEVENT block keep, for each name, the trimmed
/// value of its first line; a later line with the same name never
/// replaces it.
pub proof fn law_first_property_line_wins(caps: Seq<Seq<Option<Seq<char>>>>, k: Seq<char>)
    ensures
        pair_lookup(props_of_caps(caps), k) == first_prop_value(caps, k),
    decreases caps.len(),
{
    if caps.len() > 0 {
        let init_caps = caps.drop_last();
        law_first_property_line_wins(init_caps, k);
        lemma_first_prop_value_last(caps, k);
        let init = props_of_caps(init_caps);
        match (group(caps.last(), 1), group(caps.last(), 2)) {
            (Some(n), Some(v)) => {
                lemma_has_key_lookup(init, n, 0);
                if has_key(init, n) {
                    if n == k {
                        let j = choose|j: int| 0 <= j < init.len() && #[trigger] init[j].0 == n;
                        assert(pair_lookup_from(init, k, 0) is Some);
                    }
                } else {
                    lemma_pair_lookup_from_push(init, (n, trim(v)), k, 0);
                }
            },
            _ => {},
        }
    }
}

/// An event and its full description agree on what both hold.
pub open spec fn same_event(e: EventSummaryView, d: EventDetailView) -> bool {
    &&& d.uid == e.uid
    &&& d.summary == e.summary
    &&& d.description == e.description
    &&& d.location == e.location
    &&& d.dtstart == e.dtstart
    &&& d.dtend == e.dtend
    &&& d.is_recurring == e.is_recurring
    &&& d.url == e.url
}

/// Law: layer 1 reads a VEVENT's fields from its properties: an event
/// exists exactly when its DTSTART can be read; its DTEND is read the same
/// way as its DTSTART, with its own TZID; its description, location and
/// recurrence mark are the VEVENT's; its full description holds the same
/// fields as the event, with the DESCRIPTION, ORGANIZER, RRULE and
/// attendees of the VEVENT and the start shown in the event's zone.
pub proof fn law_ical_fields_from_properties(ev: IcalEventView, url: Seq<char>, map: Map<Seq<char>, Seq<char>>)
    ensures
        ical_summary(ev, url, map) is Some <==> prop_datetime(ev.properties, "DTSTART"@, map) is Ok,
        ical_detail(ev, url, map) is Some <==> ical_summary(ev, url, map) is Some,
        ical_summary(ev, url, map) matches Some(e) ==> {
            &&& prop_datetime(ev.properties, "DTSTART"@, map) == Ok::<i64, CalDavErrorView>(e.dtstart)
            &&& e.dtend == ok_of(prop_datetime(ev.properties, "DTEND"@, map))
            &&& e.description == prop_value(ev.properties, "DESCRIPTION"@)
            &&& e.location == prop_value(ev.properties, "LOCATION"@)
            &&& e.is_recurring == prop_value(ev.properties, "RRULE"@) is Some
            &&& e.url == url
            &&& e.dtstart_tz == match prop_named(ev.properties, "DTSTART"@) {
                Some(p) => match p.tzid {
                    Some(id) => zone_of(map, id),
                    None => None,
                },
                None => None,
            }
        },
        ical_detail(ev, url, map) matches Some(d) ==> {
            &&& ical_summary(ev, url, map) matches Some(e) && same_event(e, d)
                && d.local_start == formatted(d.dtstart, e.dtstart_tz).1
            &&& d.description == prop_value(ev.properties, "DESCRIPTION"@)
            &&& d.organizer == prop_value(ev.properties, "ORGANIZER"@)
            &&& d.rrule == prop_value(ev.properties, "RRULE"@)
            &&& d.attendees == ev.attendees
        },
{
}

/// Law: the fallback layer reads a block the same way for the listing and
/// for the details: an event exists exactly when a description does, the
/// two hold the same fields, and DTEND is read as DTSTART is, with its own
/// TZID.
pub proof fn law_fallback_fields_from_properties(
    block: Seq<char>,
    url: Seq<char>,
    map: Map<Seq<char>, Seq<char>>,
)
    ensures
        fallback_detail(block, url, map) is Some <==> fallback_summary(block, url, map) is Some,
        fallback_summary(block, url, map) matches Some(e) ==> {
            &&& pair_lookup(block_props(block), "DTSTART"@) matches Some(raw) && parsed_datetime(
                raw,
                block_tzid(block, "DTSTART"@),
                map,
            ) == Ok::<i64, CalDavErrorView>(e.dtstart)
            &&& e.dtend == match pair_lookup(block_props(block), "DTEND"@) {
                Some(raw) => ok_of(parsed_datetime(raw, block_tzid(block, "DTEND"@), map)),
                None => None,
            }
            &&& e.description == pair_lookup(block_props(block), "DESCRIPTION"@)
        },
        fallback_detail(block, url, map) matches Some(d) ==> fallback_summary(block, url, map)
            matches Some(e) && same_event(e, d) && d.local_start == formatted(
            d.dtstart,
            e.dtstart_tz,
        ).1,
{
}

proof fn lemma_ical_layers_agree(
    comps: Seq<Option<IcalEventView>>,
    url: Seq<char>,
    map: Map<Seq<char>, Seq<char>>,
)
    ensures
        ical_details(comps, url, map).len() == ical_summaries(comps, url, map).len(),
        forall|i: int|
            0 <= i < ical_details(comps, url, map).len() ==> same_event(
                ical_summaries(comps, url, map)[i],
                #[trigger] ical_details(comps, url, map)[i],
            ),
    decreases comps.len(),
{
    if comps.len() > 0 {
        lemma_ical_layers_agree(comps.drop_last(), url, map);
        match comps.last() {
            Some(ev) => law_ical_fields_from_properties(ev, url, map),
            None => {},
        }
    }
}

/// Law: reading a text with layer 1 for the listing and for the details
/// gives as many events as descriptions, the i-th description holding the
/// same fields as the i-th event.
pub proof fn law_ical_events_and_details_agree(ics: Seq<char>, url: Seq<char>)
    ensures
        ical_events_of(ics, url) matches Ok(evs) ==> ical_details_of(ics, url) matches Ok(ds)
            && ds.len() == evs.len() && forall|i: int|
            0 <= i < ds.len() ==> same_event(evs[i], #[trigger] ds[i]),
{
    match spec_ical_components(ics, "TZID"@, "ATTENDEE"@) {
        Ok(comps) => lemma_ical_layers_agree(comps, url, tz_map_of(ics)),
        Err(_) => {},
    }
}

} // verus!
