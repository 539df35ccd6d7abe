//! What the WebDAV client decides: where a reported href points, and which
//! reported resources are calendars.
use vstd::prelude::*;

use crate::dav::xml::{DavResource, DavResourceView};
use crate::ics::types::{CalendarInfo, CalendarInfoView};
use crate::text::{chars_of, clone_opt, find_from, find_lit_from, starts_with, starts_with_lit, string_from_chars, sub_chars};

verus! {

/// The scheme and host part of a URL (`scheme://host`), if it has a path.
pub open spec fn url_origin(base: Seq<char>) -> Option<Seq<char>> {
    match find_from(base, "://"@, 0) {
        Some(pos) => match find_from(base, "/"@, pos + 3) {
            Some(slash) => Some(base.subrange(0, slash)),
            None => None,
        },
        None => None,
    }
}

/// Where an href points: an absolute `http://` or `https://` href stands as
/// it is; a relative one is joined to the origin of the base URL, or to the
/// whole base URL when it has no path.
pub open spec fn resolved_href(base: Seq<char>, href: Seq<char>) -> Seq<char> {
    if starts_with(href, "http://"@) || starts_with(href, "https://"@) {
        href
    } else {
        match url_origin(base) {
            Some(origin) => origin + href,
            None => base + href,
        }
    }
}

/// Resolve a potentially relative href against a base URL.
pub fn resolve_href(base: &str, href: &str) -> (r: String)
    ensures
        r@ == resolved_href(base@, href@),
{
    let hc = chars_of(href);
    if starts_with_lit(hc.as_slice(), "http://") || starts_with_lit(hc.as_slice(), "https://") {
        return String::from_str(href);
    }
    let bc = chars_of(base);
    let blen = bc.len();
    proof {
        reveal_strlit("://");
    }
    if let Some(pos) = find_lit_from(bc.as_slice(), "://", 0) {
        assert(pos + 3 <= blen);
        if let Some(slash) = find_lit_from(bc.as_slice(), "/", pos + 3) {
            let origin = sub_chars(bc.as_slice(), 0, slash);
            let mut s = string_from_chars(origin.as_slice());
            s.append(href);
            return s;
        }
    }
    let mut s = String::from_str(base);
    s.append(href);
    s
}

/// The calendar that a reported resource stands for.
pub open spec fn calendar_of(
    base: Seq<char>,
    account: Seq<char>,
    r: DavResourceView,
) -> CalendarInfoView {
    CalendarInfoView {
        name: match r.displayname {
            Some(n) => n,
            None => "Untitled"@,
        },
        url: resolved_href(base, r.href),
        account_name: account,
        color: r.calendar_color,
    }
}

/// The calendars among reported resources, in order.
pub open spec fn calendars_of(
    base: Seq<char>,
    account: Seq<char>,
    rs: Seq<DavResourceView>,
) -> Seq<CalendarInfoView>
    decreases rs.len(),
{
    if rs.len() == 0 {
        Seq::empty()
    } else {
        let rest = calendars_of(base, account, rs.drop_last());
        if rs.last().is_calendar {
            rest.push(calendar_of(base, account, rs.last()))
        } else {
            rest
        }
    }
}

/// The views of calendars.
pub open spec fn calendar_views(v: Seq<CalendarInfo>) -> Seq<CalendarInfoView> {
    v.map_values(|c: CalendarInfo| c@)
}

/// The calendars that a PROPFIND on an account's base URL reported: the
/// resources whose type is a calendar, named by their display name
/// ("Untitled" without one), with their hrefs resolved against the base URL.
pub fn calendars_from_resources(
    base_url: &str,
    account_name: &str,
    resources: &Vec<DavResource>,
) -> (r: Vec<CalendarInfo>)
    ensures
        calendar_views(r@) == calendars_of(
            base_url@,
            account_name@,
            resources@.map_values(|x: DavResource| x@),
        ),
{
    let ghost rv = resources@.map_values(|x: DavResource| x@);
    let mut out: Vec<CalendarInfo> = Vec::new();
    let mut i: usize = 0;
    while i < resources.len()
        invariant
            0 <= i <= resources@.len(),
            rv == resources@.map_values(|x: DavResource| x@),
            calendar_views(out@) == calendars_of(base_url@, account_name@, rv.subrange(0, i as int)),
        decreases resources@.len() - i,
    {
        let ghost prefix = rv.subrange(0, i + 1);
        assert(prefix.drop_last() =~= rv.subrange(0, i as int));
        let r = &resources[i];
        if r.is_calendar {
            let name = match &r.displayname {
                Some(n) => n.clone(),
                None => String::from_str("Untitled"),
            };
            let info = CalendarInfo {
                name,
                url: resolve_href(base_url, r.href.as_str()),
                account_name: String::from_str(account_name),
                color: clone_opt(&r.calendar_color),
            };
            let ghost prev = calendar_views(out@);
            out.push(info);
            assert(calendar_views(out@) =~= prev.push(calendar_of(base_url@, account_name@, rv[i as int])));
        }
        i += 1;
    }
    assert(rv.subrange(0, resources@.len() as int) =~= rv);
    out
}

} // verus!

verus! {

/// Law: a resolved href always ends with the href itself; only the part
/// before it (nothing, the base's origin, or the whole base) varies.
pub proof fn law_resolved_href_ends_with_href(base: Seq<char>, href: Seq<char>)
    ensures
        crate::text::ends_with(resolved_href(base, href), href),
{
    let r = resolved_href(base, href);
    assert(r.subrange(r.len() - href.len(), r.len() as int) =~= href);
}

} // verus!
