//! Expansion of a recurring event into its occurrences within a window.
use vstd::prelude::*;

use crate::error::{CalDavError, CalDavErrorView};
use crate::ics::timezone::{
    format_datetime, format_local, format_utc, formatted, spec_format_local, spec_format_utc,
    ts_valid, Tz,
};
use crate::ics::types::{EventInstance, EventInstanceView};
use crate::ics::zoned_text::{
    extra_text, safe_dtstart_line, safe_dtstart_line_check, safe_extra_line,
    safe_extra_line_check, safe_rule_line, safe_rule_line_check, zoned_extra_line,
    zoned_extra_line_of, zoned_recurrence_text,
};
use crate::text::{chars_of, starts_with, starts_with_lit};

verus! {

/// The occurrences that the `rrule` crate computes for an iCalendar
/// recurrence text within an inclusive window, at most `limit` of them, or
/// the text of its error.
pub uninterp spec fn spec_rrule_all(input: Seq<char>, after: i64, before: i64, limit: u16) -> Result<
    Seq<i64>,
    Seq<char>,
>;

/// Parses an iCalendar recurrence text with `rrule::RRuleSet`'s `FromStr`,
/// bounds it with `after`/`before` and collects `all(limit)`; occurrences come
/// back as instants in seconds. The result is named `spec_rrule_all`; as the
/// crate's source shows, there are at most `limit` occurrences and each lies
/// within the inclusive window.
///
/// The crate reads a date-time that has neither a `Z` nor a TZID in the
/// zone of the machine; the text is therefore required to hold none
/// (`zoned_recurrence_text`): its DTSTART has a TZID or ends with `Z`, the
/// UNTIL values of its ASCII RRULE line end with `Z`, and each EXDATE/RDATE
/// line has a TZID parameter or only values ending with `Z`. On such a text
/// the result depends on the arguments alone.
#[verifier::external_body]
fn rrule_occurrences(input: &str, after: i64, before: i64, limit: u16) -> (r: Result<
    Vec<i64>,
    String,
>)
    requires
        zoned_recurrence_text(input@),
        ts_valid(after as int),
        ts_valid(before as int),
    ensures
        match r {
            Ok(v) => spec_rrule_all(input@, after, before, limit) == Ok::<Seq<i64>, Seq<char>>(v@)
                && v@.len() <= limit && forall|i: int|
                0 <= i < v@.len() ==> after <= #[trigger] v@[i] <= before,
            Err(e) => spec_rrule_all(input@, after, before, limit) == Err::<Seq<i64>, Seq<char>>(
                e@,
            ),
        },
{
    let set = match input.parse::<rrule::RRuleSet>() {
        Ok(s) => s,
        Err(e) => return Err(e.to_string()),
    };
    let a = chrono::DateTime::from_timestamp(after, 0).unwrap().with_timezone(&rrule::Tz::UTC);
    let b = chrono::DateTime::from_timestamp(before, 0).unwrap().with_timezone(&rrule::Tz::UTC);
    Ok(set.after(a).before(b).all(limit).dates.iter().map(|d| d.timestamp()).collect())
}

/// How many occurrences one expansion yields at most.
pub open spec fn occurrence_limit() -> u16 {
    500
}

/// A recurrence rule with its `RRULE:` prefix.
pub open spec fn with_rrule_prefix(s: Seq<char>) -> Seq<char> {
    if starts_with(s, "RRULE:"@) {
        s
    } else {
        "RRULE:"@ + s
    }
}

/// Prefixes a recurrence rule with `RRULE:` unless it already has it.
pub fn ensure_rrule_prefix(s: &str) -> (r: String)
    ensures
        r@ == with_rrule_prefix(s@),
{
    let cs = chars_of(s);
    if starts_with_lit(cs.as_slice(), "RRULE:") {
        String::from_str(s)
    } else {
        let mut r = String::from_str("RRULE:");
        r.append(s);
        r
    }
}

/// The DTSTART line of the recurrence text: anchored to the event's zone in
/// local time when it has one, so that occurrences keep their wall-clock time
/// across DST changes, else in UTC.
pub open spec fn dtstart_line(dtstart: i64, zone: Option<Seq<char>>) -> Seq<char> {
    match zone {
        Some(z) => "DTSTART;TZID="@ + z + ":"@ + spec_format_local(z, dtstart, "%Y%m%dT%H%M%S"@),
        None => "DTSTART:"@ + spec_format_utc(dtstart, "%Y%m%dT%H%M%SZ"@),
    }
}

/// The EXDATE/RDATE lines as the expander gets them, each date-time in UTC
/// or in a named zone.
pub open spec fn zoned_extras(extra: Seq<Seq<char>>) -> Seq<Seq<char>> {
    extra.map_values(|l: Seq<char>| zoned_extra_line(l))
}

/// The recurrence data holds no date-time without a zone.
pub open spec fn recurrence_zoned(
    rrule: Seq<char>,
    dtstart: i64,
    zone: Option<Seq<char>>,
    extra: Seq<Seq<char>>,
) -> bool {
    &&& safe_dtstart_line(dtstart_line(dtstart, zone))
    &&& safe_rule_line(with_rrule_prefix(rrule))
    &&& forall|i: int|
        0 <= i < extra.len() ==> safe_extra_line(#[trigger] zoned_extras(extra)[i])
}

/// The recurrence text handed to the expander: the DTSTART line, the rule,
/// and the EXDATE/RDATE lines (values without a zone read in UTC), one per
/// line.
pub open spec fn rrule_input(
    rrule: Seq<char>,
    dtstart: i64,
    zone: Option<Seq<char>>,
    extra: Seq<Seq<char>>,
) -> Seq<char> {
    dtstart_line(dtstart, zone) + "\n"@ + with_rrule_prefix(rrule) + extra_text(zoned_extras(extra))
}

/// The error of recurrence data that still holds a date-time without a
/// zone (an UNTIL that is not in UTC, or a line that cannot be read).
pub open spec fn unzoned_error() -> CalDavErrorView {
    CalDavErrorView::IcsParseError("RRULE parse error: date-time without a zone in the recurrence data"@)
}

/// The view of an optional zone reference.
pub open spec fn zone_view(z: Option<&Tz>) -> Option<Seq<char>> {
    match z {
        Some(t) => Some(t@),
        None => None,
    }
}

/// The view of an optional text.
pub open spec fn str_view(s: Option<&str>) -> Option<Seq<char>> {
    match s {
        Some(t) => Some(t@),
        None => None,
    }
}

/// The occurrence of an event that starts at `occ`.
pub open spec fn instance_of(
    occ: i64,
    duration: i64,
    summary: Seq<char>,
    master_uid: Seq<char>,
    location: Option<Seq<char>>,
    description: Option<Seq<char>>,
    display: Option<Seq<char>>,
) -> EventInstanceView {
    EventInstanceView {
        master_uid,
        summary,
        instance_start: occ,
        instance_end: (occ + duration) as i64,
        local_start: formatted(occ, display).1,
        local_end: formatted((occ + duration) as i64, display).1,
        location,
        description,
    }
}

/// The occurrences of an event that start at the given instants, in order.
pub open spec fn instances_of(
    occs: Seq<i64>,
    duration: i64,
    summary: Seq<char>,
    master_uid: Seq<char>,
    location: Option<Seq<char>>,
    description: Option<Seq<char>>,
    display: Option<Seq<char>>,
) -> Seq<EventInstanceView> {
    occs.map_values(
        |o: i64| instance_of(o, duration, summary, master_uid, location, description, display),
    )
}

/// The views of a sequence of occurrences.
pub open spec fn instance_views(v: Seq<EventInstance>) -> Seq<EventInstanceView> {
    v.map_values(|i: EventInstance| i@)
}

/// A copy of an optional text.
fn own_opt(s: Option<&str>) -> (r: Option<String>)
    ensures
        crate::text::opt_view(r) == str_view(s),
{
    match s {
        Some(t) => Some(String::from_str(t)),
        None => None,
    }
}

/// Builds the occurrences of an event from the instants at which they start:
/// each lasts `event_duration` and shows its times in `display_tz`.
pub fn instances_from_occurrences(
    occurrences: &Vec<i64>,
    event_duration: i64,
    summary: &str,
    master_uid: &str,
    location: Option<&str>,
    description: Option<&str>,
    display_tz: Option<&Tz>,
) -> (r: Vec<EventInstance>)
    requires
        forall|i: int|
            0 <= i < occurrences@.len() ==> ts_valid(#[trigger] occurrences@[i] as int) && ts_valid(
                occurrences@[i] + event_duration,
            ),
    ensures
        instance_views(r@) == instances_of(
            occurrences@,
            event_duration,
            summary@,
            master_uid@,
            str_view(location),
            str_view(description),
            zone_view(display_tz),
        ),
{
    let ghost spec_all = instances_of(
        occurrences@,
        event_duration,
        summary@,
        master_uid@,
        str_view(location),
        str_view(description),
        zone_view(display_tz),
    );
    let mut out: Vec<EventInstance> = Vec::new();
    let mut i: usize = 0;
    while i < occurrences.len()
        invariant
            0 <= i <= occurrences@.len(),
            forall|j: int|
                0 <= j < occurrences@.len() ==> ts_valid(#[trigger] occurrences@[j] as int)
                    && ts_valid(occurrences@[j] + event_duration),
            spec_all == instances_of(
                occurrences@,
                event_duration,
                summary@,
                master_uid@,
                str_view(location),
                str_view(description),
                zone_view(display_tz),
            ),
            instance_views(out@) == spec_all.subrange(0, i as int),
        decreases occurrences@.len() - i,
    {
        let occ = occurrences[i];
        assert(ts_valid(occurrences@[i as int] as int));
        let end = occ + event_duration;
        let (_, local_start) = format_datetime(occ, display_tz);
        let (_, local_end) = format_datetime(end, display_tz);
        let inst = EventInstance {
            master_uid: String::from_str(master_uid),
            summary: String::from_str(summary),
            instance_start: occ,
            instance_end: end,
            local_start,
            local_end,
            location: own_opt(location),
            description: own_opt(description),
        };
        let ghost prev = instance_views(out@);
        out.push(inst);
        assert(instance_views(out@) =~= prev.push(spec_all[i as int]));
        assert(spec_all.subrange(0, i + 1) =~= spec_all.subrange(0, i as int).push(
            spec_all[i as int],
        ));
        i += 1;
    }
    assert(spec_all.subrange(0, occurrences@.len() as int) =~= spec_all);
    out
}

/// The outcome of expanding a recurring event within a window.
pub open spec fn expansion(
    rrule: Seq<char>,
    dtstart: i64,
    dtstart_tz: Option<Seq<char>>,
    extra: Seq<Seq<char>>,
    duration: i64,
    range_start: i64,
    range_end: i64,
    summary: Seq<char>,
    master_uid: Seq<char>,
    location: Option<Seq<char>>,
    description: Option<Seq<char>>,
    display_tz: Option<Seq<char>>,
) -> Result<Seq<EventInstanceView>, CalDavErrorView> {
    if !recurrence_zoned(rrule, dtstart, dtstart_tz, extra) {
        Err(unzoned_error())
    } else {
        match spec_rrule_all(
            rrule_input(rrule, dtstart, dtstart_tz, extra),
            range_start,
            range_end,
            occurrence_limit(),
        ) {
            Ok(occs) => Ok(
                instances_of(occs, duration, summary, master_uid, location, description, display_tz),
            ),
            Err(e) => Err(CalDavErrorView::IcsParseError("RRULE parse error: "@ + e)),
        }
    }
}

/// Expand a recurring event's RRULE into concrete instances within a date range.
///
/// `extra_lines` carries EXDATE/RDATE lines (and synthetic EXDATEs derived from
/// override VEVENTs' RECURRENCE-ID values) verbatim, in RFC 5545 §3.8.5 form.
/// When the event is anchored to a zone, the expansion iterates in that zone's
/// local time so that DST transitions land correctly; otherwise in UTC. At most
/// 500 occurrences within the window are produced.
pub fn expand_rrule(
    rrule_str: &str,
    dtstart: i64,
    dtstart_tz: Option<&Tz>,
    extra_lines: &[String],
    event_duration: i64,
    range_start: i64,
    range_end: i64,
    summary: &str,
    master_uid: &str,
    location: Option<&str>,
    description: Option<&str>,
    display_tz: Option<&Tz>,
) -> (r: Result<Vec<EventInstance>, CalDavError>)
    requires
        ts_valid(dtstart as int),
        ts_valid(range_start as int),
        ts_valid(range_end as int),
        ts_valid(range_start + event_duration),
        ts_valid(range_end + event_duration),
    ensures
        match r {
            Ok(v) => expansion(
                rrule_str@,
                dtstart,
                zone_view(dtstart_tz),
                extra_lines@.map_values(|l: String| l@),
                event_duration,
                range_start,
                range_end,
                summary@,
                master_uid@,
                str_view(location),
                str_view(description),
                zone_view(display_tz),
            ) == Ok::<Seq<EventInstanceView>, CalDavErrorView>(instance_views(v@)),
            Err(e) => expansion(
                rrule_str@,
                dtstart,
                zone_view(dtstart_tz),
                extra_lines@.map_values(|l: String| l@),
                event_duration,
                range_start,
                range_end,
                summary@,
                master_uid@,
                str_view(location),
                str_view(description),
                zone_view(display_tz),
            ) == Err::<Seq<EventInstanceView>, CalDavErrorView>(e@),
        },
        r matches Ok(v) ==> v@.len() <= 500 && forall|i: int|
            0 <= i < v@.len() ==> range_start <= #[trigger] v@[i].instance_start <= range_end
                && v@[i].instance_end == v@[i].instance_start + event_duration,
{
    let dline = match dtstart_tz {
        Some(tz) => {
            let local = format_local(tz.name(), dtstart, "%Y%m%dT%H%M%S");
            let mut s = String::from_str("DTSTART;TZID=");
            s.append(tz.name());
            s.append(":");
            s.append(local.as_str());
            s
        },
        None => {
            let utc = format_utc(dtstart, "%Y%m%dT%H%M%SZ");
            let mut s = String::from_str("DTSTART:");
            s.append(utc.as_str());
            s
        },
    };
    let rule = ensure_rrule_prefix(rrule_str);
    let ghost extras = extra_lines@.map_values(|l: String| l@);
    let ghost zoned = zoned_extras(extras);
    let dc = chars_of(dline.as_str());
    let rc = chars_of(rule.as_str());
    if !safe_dtstart_line_check(dc.as_slice()) || !safe_rule_line_check(rc.as_slice()) {
        return Err(
            CalDavError::IcsParseError(
                String::from_str("RRULE parse error: date-time without a zone in the recurrence data"),
            ),
        );
    }
    let mut input = String::from_str(dline.as_str());
    input.append("\n");
    input.append(rule.as_str());
    let ghost head = input@;
    let mut i: usize = 0;
    while i < extra_lines.len()
        invariant
            0 <= i <= extra_lines@.len(),
            extras == extra_lines@.map_values(|l: String| l@),
            zoned == zoned_extras(extras),
            input@ == head + extra_text(zoned.subrange(0, i as int)),
            forall|k: int| 0 <= k < i ==> safe_extra_line(#[trigger] zoned[k]),
        decreases extra_lines@.len() - i,
    {
        let zl = zoned_extra_line_of(extra_lines[i].as_str());
        assert(zl@ == zoned[i as int]);
        let zc = chars_of(zl.as_str());
        if !safe_extra_line_check(zc.as_slice()) {
            assert(!recurrence_zoned(rrule_str@, dtstart, zone_view(dtstart_tz), extras));
            return Err(
                CalDavError::IcsParseError(
                    String::from_str(
                        "RRULE parse error: date-time without a zone in the recurrence data",
                    ),
                ),
            );
        }
        let ghost prefix = zoned.subrange(0, i + 1);
        assert(prefix.drop_last() =~= zoned.subrange(0, i as int));
        input.append("\n");
        input.append(zl.as_str());
        i += 1;
    }
    assert(zoned.subrange(0, extra_lines@.len() as int) =~= zoned);
    assert(input@ == rrule_input(rrule_str@, dtstart, zone_view(dtstart_tz), extras));
    assert(recurrence_zoned(rrule_str@, dtstart, zone_view(dtstart_tz), extras));
    assert(zoned_recurrence_text(input@)) by {
        assert(safe_dtstart_line(dline@) && safe_rule_line(rule@) && extra_text(zoned) == extra_text(
            zoned,
        ));
    }
    match rrule_occurrences(input.as_str(), range_start, range_end, 500) {
        Ok(occs) => {
            assert forall|j: int| 0 <= j < occs@.len() implies ts_valid(
                #[trigger] occs@[j] as int,
            ) && ts_valid(occs@[j] + event_duration) by {
                assert(range_start <= occs@[j] <= range_end);
            }
            let v = instances_from_occurrences(
                &occs,
                event_duration,
                summary,
                master_uid,
                location,
                description,
                display_tz,
            );
            assert(instance_views(v@).len() == v@.len());
            assert(v@.len() == occs@.len());
            assert forall|i: int| 0 <= i < v@.len() implies range_start
                <= #[trigger] v@[i].instance_start <= range_end && v@[i].instance_end
                == v@[i].instance_start + event_duration by {
                assert(instance_views(v@)[i] == v@[i]@);
                assert(range_start <= occs@[i] <= range_end);
                assert(v@[i]@ == instance_of(
                    occs@[i],
                    event_duration,
                    summary@,
                    master_uid@,
                    str_view(location),
                    str_view(description),
                    zone_view(display_tz),
                ));
                assert(ts_valid(occs@[i] + event_duration));
            }
            Ok(v)
        },
        Err(e) => {
            let mut m = String::from_str("RRULE parse error: ");
            m.append(e.as_str());
            Err(CalDavError::IcsParseError(m))
        },
    }
}

} // verus!
