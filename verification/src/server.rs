//! The decisions behind the MCP tools: which recurrence data of a calendar
//! resource feeds the expansion, and how tool replies are rendered.
use vstd::prelude::*;

use crate::dav::xml::{calendar_query_body, calendar_query_text, DavResource, DavResourceView};
use crate::error::{CalDavError, CalDavErrorView};
use crate::ics::parser::{all_summaries_valid, parse_events, parsed_events, summary_views};
use crate::ics::rrule::{expand_rrule, expansion, instance_views};
use crate::ics::sorting::{event_views, sort_by_dtstart, sort_by_start};
use crate::ics::timezone::{format_utc, naive_date_parse, spec_format_utc, spec_naive_date_parse, ts_valid};
use crate::ics::types::{
    event_line, instance_line, query_matches, summary_times_valid, EventInstanceView, EventSummary,
    EventSummaryView,
};
use crate::text::{
    chars_of, clean_lines, clean_lines_of, eq_lit, find_from, find_lit_from, join, join_strings,
    starts_with, starts_with_lit, string_from_chars, sub_chars, views,
};

verus! {

/// The line that opens a VEVENT block.
pub open spec fn begin_vevent() -> Seq<char> {
    "BEGIN:VEVENT"@
}

/// The line that closes a VEVENT block.
pub open spec fn end_vevent() -> Seq<char> {
    "END:VEVENT"@
}

/// Some line of the block starts with `p`.
pub open spec fn block_has_prefix(block: Seq<Seq<char>>, p: Seq<char>) -> bool {
    exists|i: int| 0 <= i < block.len() && starts_with(#[trigger] block[i], p)
}

/// A master VEVENT: it carries an RRULE and no RECURRENCE-ID.
pub open spec fn is_master_block(block: Seq<Seq<char>>) -> bool {
    block_has_prefix(block, "RRULE:"@) && !block_has_prefix(block, "RECURRENCE-ID"@)
}

/// An override VEVENT: it carries a RECURRENCE-ID.
pub open spec fn is_override_block(block: Seq<Seq<char>>) -> bool {
    block_has_prefix(block, "RECURRENCE-ID"@)
}

/// The value of the first `RRULE:` line of a block.
pub open spec fn first_rrule_value(block: Seq<Seq<char>>) -> Option<Seq<char>>
    decreases block.len(),
{
    if block.len() == 0 {
        None
    } else if starts_with(block[0], "RRULE:"@) {
        Some(block[0].subrange(6, block[0].len() as int))
    } else {
        first_rrule_value(block.drop_first())
    }
}

/// The RRULE of the first master VEVENT among `lines`, scanning from the state
/// (`in_vevent`, `block`): `BEGIN:VEVENT` starts an empty block, lines inside a
/// VEVENT are collected, and `END:VEVENT` closes the block and inspects it.
pub open spec fn rrule_scan(lines: Seq<Seq<char>>, in_vevent: bool, block: Seq<Seq<char>>) -> Option<
    Seq<char>,
>
    decreases lines.len(),
{
    if lines.len() == 0 {
        None
    } else {
        let l = lines[0];
        let rest = lines.drop_first();
        if l == begin_vevent() {
            rrule_scan(rest, true, Seq::empty())
        } else if l == end_vevent() {
            if is_master_block(block) {
                first_rrule_value(block)
            } else {
                rrule_scan(rest, false, block)
            }
        } else if in_vevent {
            rrule_scan(rest, true, block.push(l))
        } else {
            rrule_scan(rest, false, block)
        }
    }
}

/// The RRULE of the master VEVENT of an ICS text.
pub open spec fn master_rrule(ics: Seq<char>) -> Option<Seq<char>> {
    rrule_scan(clean_lines_of(ics), false, Seq::empty())
}

/// The EXDATE and RDATE lines of a block, in order.
pub open spec fn exdate_rdate_lines(block: Seq<Seq<char>>) -> Seq<Seq<char>>
    decreases block.len(),
{
    if block.len() == 0 {
        Seq::empty()
    } else {
        let l = block[0];
        let rest = exdate_rdate_lines(block.drop_first());
        if starts_with(l, "EXDATE"@) || starts_with(l, "RDATE"@) {
            seq![l] + rest
        } else {
            rest
        }
    }
}

/// One synthetic `EXDATE` line per RECURRENCE-ID line of a block, in order:
/// `EXDATE` followed by what follows `RECURRENCE-ID` on that line.
pub open spec fn synthetic_exdates(block: Seq<Seq<char>>) -> Seq<Seq<char>>
    decreases block.len(),
{
    if block.len() == 0 {
        Seq::empty()
    } else {
        let l = block[0];
        let rest = synthetic_exdates(block.drop_first());
        if starts_with(l, "RECURRENCE-ID"@) {
            seq!["EXDATE"@ + l.subrange(13, l.len() as int)] + rest
        } else {
            rest
        }
    }
}

/// What a closed block contributes to the recurrence modifiers.
pub open spec fn block_modifiers(block: Seq<Seq<char>>) -> Seq<Seq<char>> {
    if is_master_block(block) {
        exdate_rdate_lines(block)
    } else if is_override_block(block) {
        synthetic_exdates(block)
    } else {
        Seq::empty()
    }
}

/// The recurrence-modifier lines of `lines`, scanning from (`in_vevent`, `block`)
/// as `rrule_scan` does; every `END:VEVENT` adds what its block contributes.
pub open spec fn modifiers_scan(lines: Seq<Seq<char>>, in_vevent: bool, block: Seq<Seq<char>>) -> Seq<
    Seq<char>,
>
    decreases lines.len(),
{
    if lines.len() == 0 {
        Seq::empty()
    } else {
        let l = lines[0];
        let rest = lines.drop_first();
        if l == begin_vevent() {
            modifiers_scan(rest, true, Seq::empty())
        } else if l == end_vevent() {
            block_modifiers(block) + modifiers_scan(rest, false, block)
        } else if in_vevent {
            modifiers_scan(rest, true, block.push(l))
        } else {
            modifiers_scan(rest, false, block)
        }
    }
}

/// The recurrence modifiers of an ICS text.
pub open spec fn recurrence_modifiers(ics: Seq<char>) -> Seq<Seq<char>> {
    modifiers_scan(clean_lines_of(ics), false, Seq::empty())
}

/// The views of a sequence of strings.
pub open spec fn string_views(v: Seq<String>) -> Seq<Seq<char>> {
    v.map_values(|s: String| s@)
}

/// Whether some line of `block` starts with `lit`.
fn any_line_starts_with(block: &Vec<Vec<char>>, lit: &str) -> (r: bool)
    ensures
        r == block_has_prefix(views(block@), lit@),
{
    let mut i: usize = 0;
    while i < block.len()
        invariant
            0 <= i <= block@.len(),
            forall|j: int| 0 <= j < i ==> !starts_with(#[trigger] views(block@)[j], lit@),
        decreases block@.len() - i,
    {
        if starts_with_lit(block[i].as_slice(), lit) {
            assert(starts_with(views(block@)[i as int], lit@));
            return true;
        }
        i += 1;
    }
    false
}

/// The value of the first `RRULE:` line of a block.
fn first_rrule_of(block: &Vec<Vec<char>>) -> (r: Option<String>)
    ensures
        match r {
            Some(s) => first_rrule_value(views(block@)) == Some(s@),
            None => first_rrule_value(views(block@)) is None,
        },
{
    let mut i: usize = 0;
    assert(views(block@).skip(0) =~= views(block@));
    while i < block.len()
        invariant
            0 <= i <= block@.len(),
            first_rrule_value(views(block@)) == first_rrule_value(views(block@).skip(i as int)),
        decreases block@.len() - i,
    {
        assert(views(block@).skip(i as int).drop_first() =~= views(block@).skip(i + 1));
        let line = &block[i];
        if starts_with_lit(line.as_slice(), "RRULE:") {
            proof {
                reveal_strlit("RRULE:");
            }
            let rest = sub_chars(line.as_slice(), 6, line.len());
            return Some(string_from_chars(rest.as_slice()));
        }
        i += 1;
    }
    None
}

/// Return the RRULE of the master VEVENT, if any.
///
/// "Master" = a VEVENT that carries an RRULE and no RECURRENCE-ID. RRULEs that
/// live inside VTIMEZONE / STANDARD / DAYLIGHT components (which describe the
/// DST transitions of the timezone itself) are skipped, as are RRULEs on
/// RECURRENCE-ID overrides.
pub fn extract_rrule_from_ics(ics: &str) -> (r: Option<String>)
    ensures
        match r {
            Some(s) => master_rrule(ics@) == Some(s@),
            None => master_rrule(ics@) is None,
        },
{
    let chars = chars_of(ics);
    let lines = clean_lines(chars.as_slice());
    let ghost all = views(lines@);
    let mut in_vevent = false;
    let mut block: Vec<Vec<char>> = Vec::new();
    let mut i: usize = 0;
    assert(all.skip(0) =~= all);
    assert(views(block@) =~= Seq::<Seq<char>>::empty());
    assert(string_views(Seq::<String>::empty()) =~= Seq::<Seq<char>>::empty());
    while i < lines.len()
        invariant
            0 <= i <= lines@.len(),
            all == views(lines@),
            all == clean_lines_of(ics@),
            master_rrule(ics@) == rrule_scan(all.skip(i as int), in_vevent, views(block@)),
        decreases lines@.len() - i,
    {
        let ghost rest = all.skip(i as int);
        assert(rest.drop_first() =~= all.skip(i + 1));
        assert(rest[0] == all[i as int]);
        let line = &lines[i];
        if eq_lit(line.as_slice(), "BEGIN:VEVENT") {
            in_vevent = true;
            block = Vec::new();
            assert(views(block@) =~= Seq::<Seq<char>>::empty());
        } else if eq_lit(line.as_slice(), "END:VEVENT") {
            in_vevent = false;
            let has_rrule = any_line_starts_with(&block, "RRULE:");
            let has_recurrence_id = any_line_starts_with(&block, "RECURRENCE-ID");
            if has_rrule && !has_recurrence_id {
                return first_rrule_of(&block);
            }
        } else if in_vevent {
            let ghost prev = views(block@);
            block.push(line.clone());
            assert(views(block@) =~= prev.push(all[i as int]));
        }
        i += 1;
    }
    None
}

/// The EXDATE and RDATE lines of a block, as strings.
fn exdate_rdate_of(block: &Vec<Vec<char>>) -> (r: Vec<String>)
    ensures
        string_views(r@) == exdate_rdate_lines(views(block@)),
{
    let mut out: Vec<String> = Vec::new();
    let mut i: usize = 0;
    assert(views(block@).skip(0) =~= views(block@));
    assert(string_views(out@) =~= Seq::<Seq<char>>::empty());
    while i < block.len()
        invariant
            0 <= i <= block@.len(),
            exdate_rdate_lines(views(block@)) == string_views(out@) + exdate_rdate_lines(
                views(block@).skip(i as int),
            ),
        decreases block@.len() - i,
    {
        let ghost rest = views(block@).skip(i as int);
        assert(rest.drop_first() =~= views(block@).skip(i + 1));
        let line = &block[i];
        if starts_with_lit(line.as_slice(), "EXDATE") || starts_with_lit(line.as_slice(), "RDATE") {
            let ghost prev = string_views(out@);
            out.push(string_from_chars(line.as_slice()));
            assert(string_views(out@) =~= prev.push(rest[0]));
            assert(prev + exdate_rdate_lines(rest) =~= prev.push(rest[0]) + exdate_rdate_lines(
                views(block@).skip(i + 1),
            ));
        }
        i += 1;
    }
    assert(views(block@).skip(block@.len() as int) =~= Seq::<Seq<char>>::empty());
    assert(string_views(out@) + Seq::<Seq<char>>::empty() =~= string_views(out@));
    out
}

/// One synthetic EXDATE line per RECURRENCE-ID line of a block.
fn synthetic_exdates_of(block: &Vec<Vec<char>>) -> (r: Vec<String>)
    ensures
        string_views(r@) == synthetic_exdates(views(block@)),
{
    let mut out: Vec<String> = Vec::new();
    let mut i: usize = 0;
    assert(views(block@).skip(0) =~= views(block@));
    assert(string_views(out@) =~= Seq::<Seq<char>>::empty());
    while i < block.len()
        invariant
            0 <= i <= block@.len(),
            synthetic_exdates(views(block@)) == string_views(out@) + synthetic_exdates(
                views(block@).skip(i as int),
            ),
        decreases block@.len() - i,
    {
        let ghost rest = views(block@).skip(i as int);
        assert(rest.drop_first() =~= views(block@).skip(i + 1));
        let line = &block[i];
        if starts_with_lit(line.as_slice(), "RECURRENCE-ID") {
            proof {
                reveal_strlit("RECURRENCE-ID");
            }
            let tail = sub_chars(line.as_slice(), 13, line.len());
            let tail_s = string_from_chars(tail.as_slice());
            let mut s = String::from_str("EXDATE");
            s.append(tail_s.as_str());
            let ghost prev = string_views(out@);
            out.push(s);
            assert(string_views(out@) =~= prev.push("EXDATE"@ + rest[0].subrange(
                13,
                rest[0].len() as int,
            )));
            assert(prev + synthetic_exdates(rest) =~= string_views(out@) + synthetic_exdates(
                views(block@).skip(i + 1),
            ));
        }
        i += 1;
    }
    assert(views(block@).skip(block@.len() as int) =~= Seq::<Seq<char>>::empty());
    assert(string_views(out@) + Seq::<Seq<char>>::empty() =~= string_views(out@));
    out
}

/// Collect recurrence-modifier lines that augment the master RRULE:
///   - EXDATE/RDATE lines from the master VEVENT (the one with RRULE and no
///     RECURRENCE-ID);
///   - a synthetic EXDATE for each override VEVENT's RECURRENCE-ID, so that
///     master expansion does not emit an instance the override replaces.
///
/// The lines are returned verbatim in the format the recurrence expander reads.
pub fn extract_recurrence_modifiers(ics: &str) -> (r: Vec<String>)
    ensures
        string_views(r@) == recurrence_modifiers(ics@),
{
    let chars = chars_of(ics);
    let lines = clean_lines(chars.as_slice());
    let ghost all = views(lines@);
    let mut out: Vec<String> = Vec::new();
    let mut in_vevent = false;
    let mut block: Vec<Vec<char>> = Vec::new();
    let mut i: usize = 0;
    assert(all.skip(0) =~= all);
    assert(views(block@) =~= Seq::<Seq<char>>::empty());
    assert(string_views(Seq::<String>::empty()) =~= Seq::<Seq<char>>::empty());
    while i < lines.len()
        invariant
            0 <= i <= lines@.len(),
            all == views(lines@),
            all == clean_lines_of(ics@),
            recurrence_modifiers(ics@) == string_views(out@) + modifiers_scan(
                all.skip(i as int),
                in_vevent,
                views(block@),
            ),
        decreases lines@.len() - i,
    {
        let ghost rest = all.skip(i as int);
        assert(rest.drop_first() =~= all.skip(i + 1));
        assert(rest[0] == all[i as int]);
        let line = &lines[i];
        if eq_lit(line.as_slice(), "BEGIN:VEVENT") {
            in_vevent = true;
            block = Vec::new();
            assert(views(block@) =~= Seq::<Seq<char>>::empty());
        } else if eq_lit(line.as_slice(), "END:VEVENT") {
            in_vevent = false;
            let has_rrule = any_line_starts_with(&block, "RRULE:");
            let has_recurrence_id = any_line_starts_with(&block, "RECURRENCE-ID");
            let ghost prev = string_views(out@);
            if has_rrule && !has_recurrence_id {
                let mut add = exdate_rdate_of(&block);
                out.append(&mut add);
            } else if has_recurrence_id {
                let mut add = synthetic_exdates_of(&block);
                out.append(&mut add);
            }
            assert(string_views(out@) =~= prev + block_modifiers(views(block@)));
            assert(prev + (block_modifiers(views(block@)) + modifiers_scan(
                all.skip(i + 1),
                false,
                views(block@),
            )) =~= string_views(out@) + modifiers_scan(all.skip(i + 1), false, views(block@)));
        } else if in_vevent {
            let ghost prev = views(block@);
            block.push(line.clone());
            assert(views(block@) =~= prev.push(all[i as int]));
        }
        i += 1;
    }
    assert(all.skip(lines@.len() as int) =~= Seq::<Seq<char>>::empty());
    assert(string_views(out@) + Seq::<Seq<char>>::empty() =~= string_views(out@));
    out
}

} // verus!

verus! {

// --- Which account serves a calendar ---

/// The host part of a URL: what follows the first `://`, up to the next
/// `://` and then up to the first `/`; the whole URL when it has no `://`.
pub open spec fn url_host(url: Seq<char>) -> Seq<char> {
    match find_from(url, "://"@, 0) {
        Some(p) => {
            let seg_end = match find_from(url, "://"@, p + 3) {
                Some(q) => q,
                None => url.len() as int,
            };
            let seg = url.subrange(p + 3, seg_end);
            match find_from(seg, "/"@, 0) {
                Some(k) => seg.subrange(0, k),
                None => seg,
            }
        },
        None => url,
    }
}

/// The host part of a URL (the text between `scheme://` and the first `/`).
pub fn extract_host(url: &str) -> (r: String)
    ensures
        r@ == url_host(url@),
{
    let cs = chars_of(url);
    let n = cs.len();
    proof {
        reveal_strlit("://");
    }
    match find_lit_from(cs.as_slice(), "://", 0) {
        Some(p) => {
            assert(p + 3 <= n);
            let seg_end = match find_lit_from(cs.as_slice(), "://", p + 3) {
                Some(q) => q,
                None => n,
            };
            let seg = sub_chars(cs.as_slice(), p + 3, seg_end);
            match find_lit_from(seg.as_slice(), "/", 0) {
                Some(k) => {
                    let h = sub_chars(seg.as_slice(), 0, k);
                    string_from_chars(h.as_slice())
                },
                None => string_from_chars(seg.as_slice()),
            }
        },
        None => String::from_str(url),
    }
}

/// The first account whose base URL prefixes the calendar URL, else the
/// first whose host is the calendar's host.
pub open spec fn account_for_url(bases: Seq<Seq<char>>, url: Seq<char>) -> Option<int> {
    if exists|i: int| 0 <= i < bases.len() && starts_with(url, #[trigger] bases[i]) {
        Some(choose|i: int| 0 <= i < bases.len() && starts_with(url, #[trigger] bases[i])
            && forall|j: int| 0 <= j < i ==> !starts_with(url, #[trigger] bases[j]))
    } else if exists|i: int| 0 <= i < bases.len() && url_host(#[trigger] bases[i]) == url_host(url) {
        Some(choose|i: int| 0 <= i < bases.len() && url_host(#[trigger] bases[i]) == url_host(url)
            && forall|j: int| 0 <= j < i ==> url_host(#[trigger] bases[j]) != url_host(url))
    } else {
        None
    }
}

/// The account that serves a calendar URL, among accounts given by their
/// base URLs: the first whose base URL prefixes the calendar URL, else the
/// first with the same host; an error when none does.
pub fn find_account_for_url(base_urls: &Vec<String>, calendar_url: &str) -> (r: Result<
    usize,
    CalDavError,
>)
    ensures
        match r {
            Ok(i) => i < base_urls@.len() && account_for_url(
                base_urls@.map_values(|b: String| b@),
                calendar_url@,
            ) == Some(i as int),
            Err(e) => account_for_url(base_urls@.map_values(|b: String| b@), calendar_url@) is None
                && e@ == CalDavErrorView::Config(
                "no account found for calendar URL: "@ + calendar_url@,
            ),
        },
{
    let ghost bs = base_urls@.map_values(|b: String| b@);
    let uc = chars_of(calendar_url);
    let mut i: usize = 0;
    while i < base_urls.len()
        invariant
            0 <= i <= base_urls@.len(),
            bs == base_urls@.map_values(|b: String| b@),
            uc@ == calendar_url@,
            forall|j: int| 0 <= j < i ==> !starts_with(calendar_url@, #[trigger] bs[j]),
        decreases base_urls@.len() - i,
    {
        let bc = chars_of(base_urls[i].as_str());
        if crate::text::occurs_at_chars(uc.as_slice(), bc.as_slice(), 0) {
            assert(starts_with(calendar_url@, bs[i as int])) by {
                assert(uc@.subrange(0, bc@.len() as int) == bc@);
            }
            return Ok(i);
        }
        assert(!starts_with(calendar_url@, bs[i as int])) by {
            if starts_with(calendar_url@, bs[i as int]) {
                assert(crate::text::occurs_at(uc@, bc@, 0));
            }
        }
        i += 1;
    }
    let cal_host = extract_host(calendar_url);
    let hc = chars_of(cal_host.as_str());
    let mut k: usize = 0;
    while k < base_urls.len()
        invariant
            0 <= k <= base_urls@.len(),
            bs == base_urls@.map_values(|b: String| b@),
            hc@ == url_host(calendar_url@),
            forall|j: int| 0 <= j < bs.len() ==> !starts_with(calendar_url@, #[trigger] bs[j]),
            forall|j: int| 0 <= j < k ==> url_host(#[trigger] bs[j]) != url_host(calendar_url@),
        decreases base_urls@.len() - k,
    {
        let h = extract_host(base_urls[k].as_str());
        let h2 = chars_of(h.as_str());
        if crate::text::seq_eq(h2.as_slice(), hc.as_slice()) {
            assert(url_host(bs[k as int]) == url_host(calendar_url@));
            return Ok(k);
        }
        k += 1;
    }
    let mut m = String::from_str("no account found for calendar URL: ");
    m.append(calendar_url);
    Err(CalDavError::Config(m))
}

/// The position of the last name equal to `name` among the first `n`.
pub open spec fn last_name_index(names: Seq<Seq<char>>, name: Seq<char>, n: int) -> Option<int>
    decreases n,
{
    if n <= 0 || n > names.len() {
        None
    } else if names[n - 1] == name {
        Some(n - 1)
    } else {
        last_name_index(names, name, n - 1)
    }
}

/// No account after position `i` has the name of the account at `i`.
pub open spec fn last_of_its_name(names: Seq<Seq<char>>, i: int) -> bool {
    forall|j: int| i < j < names.len() ==> #[trigger] names[j] != names[i]
}

/// The positions among the first `n` of the accounts that are the last of
/// their name, in order.
pub open spec fn distinct_accounts(names: Seq<Seq<char>>, n: int) -> Seq<int>
    decreases n,
{
    if n <= 0 || n > names.len() {
        Seq::empty()
    } else if last_of_its_name(names, n - 1) {
        distinct_accounts(names, n - 1).push(n - 1)
    } else {
        distinct_accounts(names, n - 1)
    }
}

/// The accounts a calendar listing covers. Accounts are known by name, and a
/// later account replaces an earlier one of the same name: the filter names
/// the last account of that name; without a filter, every name is listed
/// once, by its last account, in order.
pub open spec fn accounts_selected(names: Seq<Seq<char>>, filter: Option<Seq<char>>) -> Result<
    Seq<int>,
    CalDavErrorView,
> {
    match filter {
        Some(name) => match last_name_index(names, name, names.len() as int) {
            Some(i) => Ok(seq![i]),
            None => Err(CalDavErrorView::Config("unknown account: "@ + name)),
        },
        None => Ok(distinct_accounts(names, names.len() as int)),
    }
}

/// Whether no account after position `i` has the name of the account at `i`.
fn is_last_of_its_name(names: &Vec<String>, i: usize) -> (r: bool)
    requires
        i < names@.len(),
    ensures
        r == last_of_its_name(names@.map_values(|n: String| n@), i as int),
{
    let ghost ns = names@.map_values(|n: String| n@);
    let mine = chars_of(names[i].as_str());
    let n = names.len();
    let mut j: usize = i + 1;
    while j < names.len()
        invariant
            i < j <= names@.len(),
            ns == names@.map_values(|n: String| n@),
            mine@ == ns[i as int],
            forall|k: int| i < k < j ==> #[trigger] ns[k] != ns[i as int],
        decreases names@.len() - j,
    {
        let other = chars_of(names[j].as_str());
        if crate::text::seq_eq(other.as_slice(), mine.as_slice()) {
            assert(ns[j as int] == ns[i as int]);
            return false;
        }
        j += 1;
    }
    true
}

/// The accounts that a calendar listing covers, by position among the
/// account names. Accounts are known by name, a later one replacing an
/// earlier one of the same name: a filter selects the last account with that
/// name (an unknown name is a configuration error); without one, every name
/// is listed once, by its last account.
pub fn select_accounts(names: &Vec<String>, filter: Option<&str>) -> (r: Result<
    Vec<usize>,
    CalDavError,
>)
    ensures
        match r {
            Ok(v) => accounts_selected(names@.map_values(|n: String| n@), opt_ref_view(filter))
                == Ok::<Seq<int>, CalDavErrorView>(v@.map_values(|i: usize| i as int)) && forall|
                k: int,
            | 0 <= k < v@.len() ==> v@[k] < names@.len(),
            Err(e) => accounts_selected(names@.map_values(|n: String| n@), opt_ref_view(filter))
                == Err::<Seq<int>, CalDavErrorView>(e@),
        },
{
    let ghost ns = names@.map_values(|n: String| n@);
    match filter {
        Some(name) => {
            let nc = chars_of(name);
            let mut found: Option<usize> = None;
            let mut i: usize = 0;
            while i < names.len()
                invariant
                    0 <= i <= names@.len(),
                    ns == names@.map_values(|n: String| n@),
                    nc@ == name@,
                    filter == Some(name),
                    match found {
                        Some(k) => k < i && last_name_index(ns, name@, i as int) == Some(k as int),
                        None => last_name_index(ns, name@, i as int) is None,
                    },
                decreases names@.len() - i,
            {
                let c = chars_of(names[i].as_str());
                if crate::text::seq_eq(c.as_slice(), nc.as_slice()) {
                    found = Some(i);
                }
                i += 1;
            }
            match found {
                Some(k) => {
                    let mut v: Vec<usize> = Vec::new();
                    v.push(k);
                    assert(v@.map_values(|i: usize| i as int) =~= seq![k as int]);
                    Ok(v)
                },
                None => {
                    let mut m = String::from_str("unknown account: ");
                    m.append(name);
                    Err(CalDavError::Config(m))
                },
            }
        },
        None => {
            let mut v: Vec<usize> = Vec::new();
            let mut i: usize = 0;
            while i < names.len()
                invariant
                    0 <= i <= names@.len(),
                    ns == names@.map_values(|n: String| n@),
                    v@.map_values(|i: usize| i as int) == distinct_accounts(ns, i as int),
                    forall|k: int| 0 <= k < v@.len() ==> v@[k] < i,
                decreases names@.len() - i,
            {
                let ghost prev = v@.map_values(|i: usize| i as int);
                if is_last_of_its_name(names, i) {
                    v.push(i);
                    assert(v@.map_values(|i: usize| i as int) =~= prev.push(i as int));
                }
                i += 1;
            }
            Ok(v)
        },
    }
}

// --- Dates of the tool arguments ---

/// The midnight of a `YYYY-MM-DD` date argument.
pub open spec fn parsed_date(s: Seq<char>) -> Result<i64, CalDavErrorView> {
    match spec_naive_date_parse(s, "%Y-%m-%d"@) {
        Ok(t) => Ok(t),
        Err(e) => Err(CalDavErrorView::Config("invalid date '"@ + s + "': "@ + e)),
    }
}

/// Reads a `YYYY-MM-DD` date argument as the instant of its midnight (UTC).
pub fn parse_date(s: &str) -> (r: Result<i64, CalDavError>)
    ensures
        match r {
            Ok(t) => parsed_date(s@) == Ok::<i64, CalDavErrorView>(t) && ts_valid(t as int) && t
                % 86400 == 0,
            Err(e) => parsed_date(s@) == Err::<i64, CalDavErrorView>(e@),
        },
{
    match naive_date_parse(s, "%Y-%m-%d") {
        Ok(t) => Ok(t),
        Err(e) => {
            let mut m = String::from_str("invalid date '");
            m.append(s);
            m.append("': ");
            m.append(e.as_str());
            Err(CalDavError::Config(m))
        },
    }
}

/// The CalDAV timestamp of the midnight of a date.
pub open spec fn caldav_timestamp(date: i64) -> Seq<char> {
    spec_format_utc(date, "%Y%m%d"@) + "T000000Z"@
}

/// The CalDAV timestamp (`YYYYMMDDT000000Z`) of the midnight of a date.
pub fn to_caldav_timestamp(date: i64) -> (r: String)
    requires
        ts_valid(date as int),
    ensures
        r@ == caldav_timestamp(date),
{
    let mut s = format_utc(date, "%Y%m%d");
    s.append("T000000Z");
    s
}

/// The request that a date window asks for: the calendar-query body and the
/// instants that bound the window (midnight of the first day to 23:59:59 of
/// the last).
pub struct EventsQuery {
    pub body: String,
    pub range_start: i64,
    pub range_end: i64,
}

/// The query for the events between two date arguments.
pub open spec fn events_query_of(start: Seq<char>, end: Seq<char>) -> Result<
    (Seq<char>, i64, i64),
    CalDavErrorView,
> {
    match parsed_date(start) {
        Err(e) => Err(e),
        Ok(s) => match parsed_date(end) {
            Err(e) => Err(e),
            Ok(t) => Ok(
                (
                    calendar_query_text(caldav_timestamp(s), caldav_timestamp(t)),
                    s,
                    (t + 86399) as i64,
                ),
            ),
        },
    }
}

/// The query for the events between two `YYYY-MM-DD` date arguments.
pub fn events_query(start_date: &str, end_date: &str) -> (r: Result<EventsQuery, CalDavError>)
    ensures
        match r {
            Ok(q) => events_query_of(start_date@, end_date@) == Ok::<
                (Seq<char>, i64, i64),
                CalDavErrorView,
            >((q.body@, q.range_start, q.range_end)) && ts_valid(q.range_start as int) && ts_valid(
                q.range_end as int,
            ),
            Err(e) => events_query_of(start_date@, end_date@) == Err::<
                (Seq<char>, i64, i64),
                CalDavErrorView,
            >(e@),
        },
{
    let start = parse_date(start_date)?;
    let end = parse_date(end_date)?;
    let a = to_caldav_timestamp(start);
    let b = to_caldav_timestamp(end);
    let body = calendar_query_body(a.as_str(), b.as_str());
    assert(end + 86399 <= crate::ics::timezone::max_ts()) by {
        assert(end % 86400 == 0);
    }
    Ok(EventsQuery { body, range_start: start, range_end: end + 86399 })
}

/// The date window of a search: the given dates, or 30 days before and
/// after today.
pub open spec fn search_window_of(
    start: Option<Seq<char>>,
    end: Option<Seq<char>>,
    today: i64,
) -> Result<(i64, i64), CalDavErrorView> {
    let s = match start {
        Some(d) => parsed_date(d),
        None => Ok((today - 30 * 86400) as i64),
    };
    match s {
        Err(e) => Err(e),
        Ok(s) => {
            let t = match end {
                Some(d) => parsed_date(d),
                None => Ok((today + 30 * 86400) as i64),
            };
            match t {
                Err(e) => Err(e),
                Ok(t) => Ok((s, t)),
            }
        },
    }
}

/// The view of an optional text reference.
pub open spec fn opt_ref_view(o: Option<&str>) -> Option<Seq<char>> {
    match o {
        Some(s) => Some(s@),
        None => None,
    }
}

/// The date window of a search, as the midnights of its first and last
/// days: the given dates, or 30 days before and after today's midnight.
pub fn search_window(start_date: Option<&str>, end_date: Option<&str>, today: i64) -> (r: Result<
    (i64, i64),
    CalDavError,
>)
    requires
        ts_valid(today - 30 * 86400),
        ts_valid(today + 30 * 86400),
        today % 86400 == 0,
    ensures
        match r {
            Ok(w) => search_window_of(opt_ref_view(start_date), opt_ref_view(end_date), today)
                == Ok::<(i64, i64), CalDavErrorView>(w) && ts_valid(w.0 as int) && ts_valid(
                w.1 as int,
            ) && w.0 % 86400 == 0 && w.1 % 86400 == 0,
            Err(e) => search_window_of(opt_ref_view(start_date), opt_ref_view(end_date), today)
                == Err::<(i64, i64), CalDavErrorView>(e@),
        },
{
    let start = match start_date {
        Some(d) => parse_date(d)?,
        None => today - 30 * 86400,
    };
    let end = match end_date {
        Some(d) => parse_date(d)?,
        None => today + 30 * 86400,
    };
    Ok((start, end))
}

/// The calendar-query body for the events of a date window given by the
/// midnights of its first and last days.
pub fn window_query_body(start: i64, end: i64) -> (r: String)
    requires
        ts_valid(start as int),
        ts_valid(end as int),
    ensures
        r@ == calendar_query_text(caldav_timestamp(start), caldav_timestamp(end)),
{
    let a = to_caldav_timestamp(start);
    let b = to_caldav_timestamp(end);
    calendar_query_body(a.as_str(), b.as_str())
}

} // verus!

verus! {

// --- Rendering the event listing ---

/// How long an occurrence lasts: the event's own length, or an hour when it
/// has no end.
pub open spec fn event_length(e: EventSummaryView) -> int {
    match e.dtend {
        Some(t) => t - e.dtstart,
        None => 3600,
    }
}

/// What one event of a resource adds to the listing: a recurring event of a
/// resource with a master RRULE is replaced by the lines of its occurrences in
/// the window; any other event, and one whose expansion fails (or whose
/// occurrences would end beyond the range of date-times), is listed itself.
pub open spec fn event_outcome(e: EventSummaryView, ics: Seq<char>, rs: i64, re: i64) -> (
    Seq<EventSummaryView>,
    Seq<Seq<char>>,
) {
    let own = (seq![e], Seq::<Seq<char>>::empty());
    if !e.is_recurring {
        own
    } else {
        match master_rrule(ics) {
            None => own,
            Some(rule) => {
                let d = event_length(e);
                if !(ts_valid(rs + d) && ts_valid(re + d)) {
                    own
                } else {
                    match expansion(
                        rule,
                        e.dtstart,
                        e.dtstart_tz,
                        recurrence_modifiers(ics),
                        d as i64,
                        rs,
                        re,
                        e.summary,
                        e.uid,
                        e.location,
                        None,
                        e.dtstart_tz,
                    ) {
                        Ok(insts) => (
                            Seq::<EventSummaryView>::empty(),
                            insts.map_values(|i: EventInstanceView| instance_line(i)),
                        ),
                        Err(_) => own,
                    }
                }
            },
        }
    }
}

/// What the events of a resource add to the listing, in order.
pub open spec fn events_outcome(evs: Seq<EventSummaryView>, ics: Seq<char>, rs: i64, re: i64) -> (
    Seq<EventSummaryView>,
    Seq<Seq<char>>,
)
    decreases evs.len(),
{
    if evs.len() == 0 {
        (Seq::empty(), Seq::empty())
    } else {
        let a = events_outcome(evs.drop_last(), ics, rs, re);
        let b = event_outcome(evs.last(), ics, rs, re);
        (a.0 + b.0, a.1 + b.1)
    }
}

/// What a resource adds to the listing: nothing without calendar data or when
/// its data cannot be parsed.
pub open spec fn resource_outcome(r: DavResourceView, rs: i64, re: i64) -> (
    Seq<EventSummaryView>,
    Seq<Seq<char>>,
) {
    match r.calendar_data {
        None => (Seq::empty(), Seq::empty()),
        Some(ics) => match parsed_events(ics, r.href) {
            Err(_) => (Seq::empty(), Seq::empty()),
            Ok(evs) => events_outcome(evs, ics, rs, re),
        },
    }
}

/// What the resources add to the listing, in order.
pub open spec fn resources_outcome(rsrc: Seq<DavResourceView>, rs: i64, re: i64) -> (
    Seq<EventSummaryView>,
    Seq<Seq<char>>,
)
    decreases rsrc.len(),
{
    if rsrc.len() == 0 {
        (Seq::empty(), Seq::empty())
    } else {
        let a = resources_outcome(rsrc.drop_last(), rs, re);
        let b = resource_outcome(rsrc.last(), rs, re);
        (a.0 + b.0, a.1 + b.1)
    }
}

/// The reply of the event listing: the one-off (and unexpanded) events
/// ordered by start, then the occurrences of recurring events; a fixed
/// sentence when there is nothing.
pub open spec fn events_reply(rsrc: Seq<DavResourceView>, rs: i64, re: i64) -> Seq<char> {
    let o = resources_outcome(rsrc, rs, re);
    let lines = sort_by_start(o.0).map_values(|e: EventSummaryView| event_line(e)) + o.1;
    if lines.len() == 0 {
        "No events found in the specified date range."@
    } else {
        join(lines, "\n"@)
    }
}

/// The views of resources.
pub open spec fn resources_view(v: Seq<DavResource>) -> Seq<DavResourceView> {
    v.map_values(|r: DavResource| r@)
}

/// Adds what one event contributes to the listing.
fn add_event_outcome(
    e: &EventSummary,
    ics: &str,
    extra: &Vec<String>,
    range_start: i64,
    range_end: i64,
    kept: &mut Vec<EventSummary>,
    lines: &mut Vec<String>,
)
    requires
        summary_times_valid(e@),
        string_views(extra@) == recurrence_modifiers(ics@),
        ts_valid(range_start as int),
        ts_valid(range_end as int),
    ensures
        event_views(final(kept)@) == event_views(old(kept)@) + event_outcome(
            e@,
            ics@,
            range_start,
            range_end,
        ).0,
        string_views(final(lines)@) == string_views(old(lines)@) + event_outcome(
            e@,
            ics@,
            range_start,
            range_end,
        ).1,
        forall|k: int| 0 <= k < old(kept)@.len() ==> final(kept)@[k] == old(kept)@[k],
        forall|k: int|
            old(kept)@.len() <= k < final(kept)@.len() ==> summary_times_valid(
                #[trigger] final(kept)@[k]@,
            ),
{
    let ghost oc = event_outcome(e@, ics@, range_start, range_end);
    let ghost kept0 = event_views(kept@);
    let ghost lines0 = string_views(lines@);
    let mut keep = true;
    if e.is_recurring {
        match extract_rrule_from_ics(ics) {
            Some(rule) => {
                let duration: i64 = match e.dtend {
                    Some(t) => t - e.dtstart,
                    None => 3600,
                };
                let lo = crate::ics::timezone::min_ts_exec();
                let hi = crate::ics::timezone::max_ts_exec();
                let a = range_start + duration;
                let b = range_end + duration;
                let fits = lo <= a && a <= hi && lo <= b && b <= hi;
                if fits {
                    let loc: Option<&str> = match &e.location {
                        Some(l) => Some(l.as_str()),
                        None => None,
                    };
                    match expand_rrule(
                        rule.as_str(),
                        e.dtstart,
                        e.dtstart_tz.as_ref(),
                        extra.as_slice(),
                        duration,
                        range_start,
                        range_end,
                        e.summary.as_str(),
                        e.uid.as_str(),
                        loc,
                        None,
                        e.dtstart_tz.as_ref(),
                    ) {
                        Ok(insts) => {
                            keep = false;
                            let ghost iv = instance_views(insts@);
                            let mut k: usize = 0;
                            while k < insts.len()
                                invariant
                                    0 <= k <= insts@.len(),
                                    iv == instance_views(insts@),
                                    string_views(lines@) == lines0 + iv.subrange(
                                        0,
                                        k as int,
                                    ).map_values(|i: EventInstanceView| instance_line(i)),
                                decreases insts@.len() - k,
                            {
                                let line = insts[k].display();
                                let ghost prev = string_views(lines@);
                                lines.push(line);
                                assert(string_views(lines@) =~= prev.push(instance_line(iv[k as int])));
                                assert(iv.subrange(0, k + 1).map_values(
                                    |i: EventInstanceView| instance_line(i),
                                ) =~= iv.subrange(0, k as int).map_values(
                                    |i: EventInstanceView| instance_line(i),
                                ).push(instance_line(iv[k as int])));
                                k += 1;
                            }
                            assert(iv.subrange(0, insts@.len() as int) =~= iv);
                            assert(event_views(kept@) =~= kept0 + Seq::<EventSummaryView>::empty());
                        },
                        Err(_) => {},
                    }
                }
            },
            None => {},
        }
    }
    if keep {
        let copy = e.duplicate();
        kept.push(copy);
        assert(event_views(kept@) =~= kept0.push(e@));
        assert(string_views(lines@) =~= lines0 + Seq::<Seq<char>>::empty());
        assert(oc == (seq![e@], Seq::<Seq<char>>::empty()));
    }
}

/// Adds what one resource contributes to the listing.
fn add_resource_outcome(
    r: &DavResource,
    range_start: i64,
    range_end: i64,
    kept: &mut Vec<EventSummary>,
    lines: &mut Vec<String>,
)
    requires
        ts_valid(range_start as int),
        ts_valid(range_end as int),
    ensures
        event_views(final(kept)@) == event_views(old(kept)@) + resource_outcome(
            r@,
            range_start,
            range_end,
        ).0,
        string_views(final(lines)@) == string_views(old(lines)@) + resource_outcome(
            r@,
            range_start,
            range_end,
        ).1,
        forall|k: int| 0 <= k < old(kept)@.len() ==> final(kept)@[k] == old(kept)@[k],
        forall|k: int|
            old(kept)@.len() <= k < final(kept)@.len() ==> summary_times_valid(
                #[trigger] final(kept)@[k]@,
            ),
{
    let ghost kept0 = event_views(kept@);
    let ghost lines0 = string_views(lines@);
    let ghost kept_old = kept@;
    match &r.calendar_data {
        None => {
            assert(event_views(kept@) =~= kept0 + Seq::<EventSummaryView>::empty());
            assert(string_views(lines@) =~= lines0 + Seq::<Seq<char>>::empty());
        },
        Some(ics) => match parse_events(ics.as_str(), r.href.as_str()) {
            Err(_) => {
                assert(event_views(kept@) =~= kept0 + Seq::<EventSummaryView>::empty());
                assert(string_views(lines@) =~= lines0 + Seq::<Seq<char>>::empty());
            },
            Ok(events) => {
                let extra = extract_recurrence_modifiers(ics.as_str());
                let ghost evs = summary_views(events@);
                let mut j: usize = 0;
                assert(event_views(kept@) =~= kept0 + events_outcome(
                    evs.subrange(0, 0),
                    ics@,
                    range_start,
                    range_end,
                ).0);
                assert(string_views(lines@) =~= lines0 + events_outcome(
                    evs.subrange(0, 0),
                    ics@,
                    range_start,
                    range_end,
                ).1);
                while j < events.len()
                    invariant
                        0 <= j <= events@.len(),
                        evs == summary_views(events@),
                        all_summaries_valid(events@),
                        string_views(extra@) == recurrence_modifiers(ics@),
                        ts_valid(range_start as int),
                        ts_valid(range_end as int),
                        event_views(kept@) == kept0 + events_outcome(
                            evs.subrange(0, j as int),
                            ics@,
                            range_start,
                            range_end,
                        ).0,
                        string_views(lines@) == lines0 + events_outcome(
                            evs.subrange(0, j as int),
                            ics@,
                            range_start,
                            range_end,
                        ).1,
                        kept0 == event_views(kept_old),
                        kept_old.len() <= kept@.len(),
                        forall|k: int| 0 <= k < kept_old.len() ==> kept@[k] == kept_old[k],
                        forall|k: int|
                            kept_old.len() <= k < kept@.len() ==> summary_times_valid(
                                #[trigger] kept@[k]@,
                            ),
                    decreases events@.len() - j,
                {
                    let ghost prefix = evs.subrange(0, j + 1);
                    assert(prefix.drop_last() =~= evs.subrange(0, j as int));
                    assert(prefix.last() == events@[j as int]@);
                    assert(summary_times_valid(events@[j as int]@));
                    let ghost kb = event_views(kept@);
                    let ghost lb = string_views(lines@);
                    add_event_outcome(
                        &events[j],
                        ics.as_str(),
                        &extra,
                        range_start,
                        range_end,
                        kept,
                        lines,
                    );
                    let ghost a = events_outcome(evs.subrange(0, j as int), ics@, range_start, range_end);
                    let ghost b = event_outcome(events@[j as int]@, ics@, range_start, range_end);
                    assert(kept0 + (a.0 + b.0) =~= kb + b.0);
                    assert(lines0 + (a.1 + b.1) =~= lb + b.1);
                    j += 1;
                }
                assert(evs.subrange(0, events@.len() as int) =~= evs);
            },
        },
    }
}

/// The event listing of the resources that a calendar query returned, for
/// the window from `range_start` to `range_end`: one-off events (and those
/// whose recurrence cannot be expanded) ordered by start, then the
/// occurrences of recurring events in the window, one line each.
pub fn render_events(resources: &Vec<DavResource>, range_start: i64, range_end: i64) -> (r: String)
    requires
        ts_valid(range_start as int),
        ts_valid(range_end as int),
    ensures
        r@ == events_reply(resources_view(resources@), range_start, range_end),
{
    let ghost rv = resources_view(resources@);
    let mut kept: Vec<EventSummary> = Vec::new();
    let mut lines: Vec<String> = Vec::new();
    let mut i: usize = 0;
    assert(event_views(kept@) =~= resources_outcome(rv.subrange(0, 0), range_start, range_end).0);
    assert(string_views(lines@) =~= resources_outcome(rv.subrange(0, 0), range_start, range_end).1);
    while i < resources.len()
        invariant
            0 <= i <= resources@.len(),
            rv == resources_view(resources@),
            ts_valid(range_start as int),
            ts_valid(range_end as int),
            event_views(kept@) == resources_outcome(rv.subrange(0, i as int), range_start, range_end).0,
            string_views(lines@) == resources_outcome(rv.subrange(0, i as int), range_start, range_end).1,
            forall|k: int| 0 <= k < kept@.len() ==> summary_times_valid(#[trigger] kept@[k]@),
        decreases resources@.len() - i,
    {
        let ghost prefix = rv.subrange(0, i + 1);
        assert(prefix.drop_last() =~= rv.subrange(0, i as int));
        let ghost kb = event_views(kept@);
        let ghost lb = string_views(lines@);
        add_resource_outcome(&resources[i], range_start, range_end, &mut kept, &mut lines);
        let ghost a = resources_outcome(rv.subrange(0, i as int), range_start, range_end);
        let ghost b = resource_outcome(rv[i as int], range_start, range_end);
        assert(a.0 + b.0 =~= kb + b.0);
        assert(a.1 + b.1 =~= lb + b.1);
        i += 1;
    }
    assert(rv.subrange(0, resources@.len() as int) =~= rv);
    let ghost kv = event_views(kept@);
    proof {
        crate::ics::sorting::lemma_sort_by_start(kv);
    }
    let sorted = sort_by_dtstart(kept);
    let ghost sv = event_views(sorted@);
    let mut out: Vec<String> = Vec::new();
    let mut k: usize = 0;
    while k < sorted.len()
        invariant
            0 <= k <= sorted@.len(),
            sv == event_views(sorted@),
            sv.to_multiset() == kv.to_multiset(),
            forall|m: int| 0 <= m < kv.len() ==> summary_times_valid(#[trigger] kv[m]),
            string_views(out@) == sv.subrange(0, k as int).map_values(|e: EventSummaryView| event_line(e)),
        decreases sorted@.len() - k,
    {
        proof {
            assert(sv.to_multiset().count(sv[k as int]) > 0) by {
                vstd::seq_lib::lemma_seq_contains_after_push(sv.subrange(0, k as int), sv[k as int], sv[k as int]);
                broadcast use vstd::seq_lib::group_seq_properties;
                assert(sv.contains(sv[k as int]));
            }
            broadcast use vstd::seq_lib::group_seq_properties;
            assert(kv.contains(sv[k as int]));
        }
        let line = sorted[k].display();
        let ghost prev = string_views(out@);
        out.push(line);
        assert(string_views(out@) =~= prev.push(event_line(sv[k as int])));
        assert(sv.subrange(0, k + 1).map_values(|e: EventSummaryView| event_line(e)) =~= sv.subrange(
            0,
            k as int,
        ).map_values(|e: EventSummaryView| event_line(e)).push(event_line(sv[k as int])));
        k += 1;
    }
    assert(sv.subrange(0, sorted@.len() as int) =~= sv);
    let ghost before = string_views(out@);
    let ghost lv = string_views(lines@);
    out.append(&mut lines);
    assert(string_views(out@) =~= before + lv);
    assert(before == sort_by_start(kv).map_values(|e: EventSummaryView| event_line(e)));
    if out.len() == 0 {
        String::from_str("No events found in the specified date range.")
    } else {
        join_strings(&out, "\n")
    }
}

} // verus!

verus! {

// --- Rendering search results ---

/// The events among `evs` that match the query, in order.
pub open spec fn matching(evs: Seq<EventSummaryView>, query: Seq<char>) -> Seq<EventSummaryView>
    decreases evs.len(),
{
    if evs.len() == 0 {
        Seq::empty()
    } else {
        let rest = matching(evs.drop_last(), query);
        if query_matches(evs.last(), query) {
            rest.push(evs.last())
        } else {
            rest
        }
    }
}

/// The matching events of a resource: none without calendar data or when its
/// data cannot be parsed.
pub open spec fn resource_matches(r: DavResourceView, query: Seq<char>) -> Seq<EventSummaryView> {
    match r.calendar_data {
        None => Seq::empty(),
        Some(ics) => match parsed_events(ics, r.href) {
            Err(_) => Seq::empty(),
            Ok(evs) => matching(evs, query),
        },
    }
}

/// The matching events of the resources, in order.
pub open spec fn resources_matches(rsrc: Seq<DavResourceView>, query: Seq<char>) -> Seq<
    EventSummaryView,
>
    decreases rsrc.len(),
{
    if rsrc.len() == 0 {
        Seq::empty()
    } else {
        resources_matches(rsrc.drop_last(), query) + resource_matches(rsrc.last(), query)
    }
}

/// The reply of a search: the matching events ordered by start, or a
/// sentence that names the query when nothing matches.
pub open spec fn search_reply(rsrc: Seq<DavResourceView>, query: Seq<char>) -> Seq<char> {
    let ms = sort_by_start(resources_matches(rsrc, query));
    if ms.len() == 0 {
        "No events matching '"@ + query + "' found."@
    } else {
        join(ms.map_values(|e: EventSummaryView| event_line(e)), "\n"@)
    }
}

/// Adds the matching events of one resource.
fn add_resource_matches(r: &DavResource, query: &str, found: &mut Vec<EventSummary>)
    ensures
        event_views(final(found)@) == event_views(old(found)@) + resource_matches(r@, query@),
        forall|k: int| 0 <= k < old(found)@.len() ==> final(found)@[k] == old(found)@[k],
        forall|k: int|
            old(found)@.len() <= k < final(found)@.len() ==> summary_times_valid(
                #[trigger] final(found)@[k]@,
            ),
{
    let ghost f0 = event_views(found@);
    let ghost found_old = found@;
    match &r.calendar_data {
        None => {
            assert(event_views(found@) =~= f0 + Seq::<EventSummaryView>::empty());
        },
        Some(ics) => match parse_events(ics.as_str(), r.href.as_str()) {
            Err(_) => {
                assert(event_views(found@) =~= f0 + Seq::<EventSummaryView>::empty());
            },
            Ok(events) => {
                let ghost evs = summary_views(events@);
                let mut j: usize = 0;
                assert(event_views(found@) =~= f0 + matching(evs.subrange(0, 0), query@));
                while j < events.len()
                    invariant
                        0 <= j <= events@.len(),
                        evs == summary_views(events@),
                        all_summaries_valid(events@),
                        event_views(found@) == f0 + matching(evs.subrange(0, j as int), query@),
                        f0 == event_views(found_old),
                        found_old.len() <= found@.len(),
                        forall|k: int| 0 <= k < found_old.len() ==> found@[k] == found_old[k],
                        forall|k: int|
                            found_old.len() <= k < found@.len() ==> summary_times_valid(
                                #[trigger] found@[k]@,
                            ),
                    decreases events@.len() - j,
                {
                    let ghost prefix = evs.subrange(0, j + 1);
                    assert(prefix.drop_last() =~= evs.subrange(0, j as int));
                    assert(prefix.last() == events@[j as int]@);
                    assert(summary_times_valid(events@[j as int]@));
                    if events[j].matches_query(query) {
                        let ghost prev = event_views(found@);
                        found.push(events[j].duplicate());
                        assert(event_views(found@) =~= prev.push(events@[j as int]@));
                    }
                    j += 1;
                }
                assert(evs.subrange(0, events@.len() as int) =~= evs);
            },
        },
    }
}

/// The reply that the hits of a server-side search give, if there are any:
/// every event the server returned, ordered by start.
pub open spec fn server_search_reply(rsrc: Seq<DavResourceView>) -> Option<Seq<char>> {
    if resources_matches(rsrc, Seq::empty()).len() == 0 {
        None
    } else {
        Some(search_reply(rsrc, Seq::empty()))
    }
}

/// The reply of a search from what a server-side search returned: its
/// events ordered by start when there are any; `None` when it found
/// nothing, so that the search goes on client-side over the whole window.
pub fn render_server_hits(resources: &Vec<DavResource>) -> (r: Option<String>)
    ensures
        match r {
            Some(s) => server_search_reply(resources_view(resources@)) == Some(s@),
            None => server_search_reply(resources_view(resources@)) is None,
        },
{
    proof {
        reveal_strlit("");
    }
    assert(""@ =~= Seq::<char>::empty());
    let hits = search_hits(resources, "");
    if hits.len() == 0 {
        None
    } else {
        Some(render_search(resources, ""))
    }
}

/// The calendar-query body of the server-side search of a date window,
/// given by the midnights of its first and last days.
pub fn server_search_body(query: &str, start: i64, end: i64) -> (r: String)
    requires
        ts_valid(start as int),
        ts_valid(end as int),
    ensures
        r@ == crate::dav::xml::text_search_query_text(
            query@,
            caldav_timestamp(start),
            caldav_timestamp(end),
        ),
{
    let a = to_caldav_timestamp(start);
    let b = to_caldav_timestamp(end);
    crate::dav::xml::text_search_query_body(query, a.as_str(), b.as_str())
}

/// The events of the resources of a calendar query that match a text, in
/// the order the resources give them.
pub fn search_hits(resources: &Vec<DavResource>, query: &str) -> (r: Vec<EventSummary>)
    ensures
        event_views(r@) == resources_matches(resources_view(resources@), query@),
        forall|k: int| 0 <= k < r@.len() ==> summary_times_valid(#[trigger] r@[k]@),
{
    let ghost rv = resources_view(resources@);
    let mut found: Vec<EventSummary> = Vec::new();
    let mut i: usize = 0;
    assert(event_views(found@) =~= resources_matches(rv.subrange(0, 0), query@));
    while i < resources.len()
        invariant
            0 <= i <= resources@.len(),
            rv == resources_view(resources@),
            event_views(found@) == resources_matches(rv.subrange(0, i as int), query@),
            forall|k: int| 0 <= k < found@.len() ==> summary_times_valid(#[trigger] found@[k]@),
        decreases resources@.len() - i,
    {
        let ghost prefix = rv.subrange(0, i + 1);
        assert(prefix.drop_last() =~= rv.subrange(0, i as int));
        add_resource_matches(&resources[i], query, &mut found);
        i += 1;
    }
    assert(rv.subrange(0, resources@.len() as int) =~= rv);
    found
}

/// The reply of a search over the resources of a calendar query: the events
/// whose summary, description or location contains the query (ignoring
/// case), ordered by start.
pub fn render_search(resources: &Vec<DavResource>, query: &str) -> (r: String)
    ensures
        r@ == search_reply(resources_view(resources@), query@),
{
    let found = search_hits(resources, query);
    let ghost fv = event_views(found@);
    proof {
        crate::ics::sorting::lemma_sort_by_start(fv);
    }
    let sorted = sort_by_dtstart(found);
    let ghost sv = event_views(sorted@);
    if sorted.len() == 0 {
        let mut m = String::from_str("No events matching '");
        m.append(query);
        m.append("' found.");
        return m;
    }
    let mut out: Vec<String> = Vec::new();
    let mut k: usize = 0;
    while k < sorted.len()
        invariant
            0 <= k <= sorted@.len(),
            sv == event_views(sorted@),
            sv.to_multiset() == fv.to_multiset(),
            forall|m: int| 0 <= m < fv.len() ==> summary_times_valid(#[trigger] fv[m]),
            string_views(out@) == sv.subrange(0, k as int).map_values(
                |e: EventSummaryView| event_line(e),
            ),
        decreases sorted@.len() - k,
    {
        proof {
            broadcast use vstd::seq_lib::group_seq_properties;
            assert(sv.contains(sv[k as int]));
            assert(sv.to_multiset().count(sv[k as int]) > 0);
            assert(fv.to_multiset().count(sv[k as int]) > 0);
            assert(fv.contains(sv[k as int]));
        }
        let line = sorted[k].display();
        let ghost prev = string_views(out@);
        out.push(line);
        assert(string_views(out@) =~= prev.push(event_line(sv[k as int])));
        assert(sv.subrange(0, k + 1).map_values(|e: EventSummaryView| event_line(e))
            =~= sv.subrange(0, k as int).map_values(|e: EventSummaryView| event_line(e)).push(
            event_line(sv[k as int]),
        ));
        k += 1;
    }
    assert(sv.subrange(0, sorted@.len() as int) =~= sv);
    join_strings(&out, "\n")
}

} // verus!

verus! {

// --- Event details ---

/// Where the details of an event come from.
pub enum DetailsSource {
    /// The event's own ICS resource.
    ByUrl(String),
    /// A UID query on a calendar.
    ByUid { uid: String, calendar_url: String },
}

/// The mathematical value of a `DetailsSource`.
pub enum DetailsSourceView {
    ByUrl(Seq<char>),
    ByUid { uid: Seq<char>, calendar_url: Seq<char> },
}

impl View for DetailsSource {
    type V = DetailsSourceView;

    open spec fn view(&self) -> DetailsSourceView {
        match self {
            DetailsSource::ByUrl(u) => DetailsSourceView::ByUrl(u@),
            DetailsSource::ByUid { uid, calendar_url } => DetailsSourceView::ByUid {
                uid: uid@,
                calendar_url: calendar_url@,
            },
        }
    }
}

/// Where the details of an event come from: its URL when given, else a UID
/// query on the given calendar.
pub open spec fn details_source_of(
    event_uid: Option<Seq<char>>,
    event_url: Option<Seq<char>>,
    calendar_url: Option<Seq<char>>,
) -> Result<DetailsSourceView, CalDavErrorView> {
    match event_url {
        Some(u) => Ok(DetailsSourceView::ByUrl(u)),
        None => match event_uid {
            Some(uid) => match calendar_url {
                Some(c) => Ok(DetailsSourceView::ByUid { uid, calendar_url: c }),
                None => Err(
                    CalDavErrorView::Config("calendar_url is required when using event_uid"@),
                ),
            },
            None => Err(CalDavErrorView::Config("either event_uid or event_url must be provided"@)),
        },
    }
}

/// Decides where the details of an event come from: the event URL when one is
/// given, else a UID query, which needs the calendar URL.
pub fn details_source(
    event_uid: Option<&str>,
    event_url: Option<&str>,
    calendar_url: Option<&str>,
) -> (r: Result<DetailsSource, CalDavError>)
    ensures
        match r {
            Ok(s) => details_source_of(
                opt_ref_view(event_uid),
                opt_ref_view(event_url),
                opt_ref_view(calendar_url),
            ) == Ok::<DetailsSourceView, CalDavErrorView>(s@),
            Err(e) => details_source_of(
                opt_ref_view(event_uid),
                opt_ref_view(event_url),
                opt_ref_view(calendar_url),
            ) == Err::<DetailsSourceView, CalDavErrorView>(e@),
        },
{
    match event_url {
        Some(u) => Ok(DetailsSource::ByUrl(String::from_str(u))),
        None => match event_uid {
            Some(uid) => match calendar_url {
                Some(c) => Ok(
                    DetailsSource::ByUid { uid: String::from_str(uid), calendar_url: String::from_str(c) },
                ),
                None => Err(
                    CalDavError::Config(
                        String::from_str("calendar_url is required when using event_uid"),
                    ),
                ),
            },
            None => Err(
                CalDavError::Config(String::from_str("either event_uid or event_url must be provided")),
            ),
        },
    }
}

/// The URL that the details name: the event URL, else the calendar URL,
/// else `unknown`.
pub open spec fn details_url_of(event_url: Option<Seq<char>>, calendar_url: Option<Seq<char>>) -> Seq<
    char,
> {
    match event_url {
        Some(u) => u,
        None => match calendar_url {
            Some(c) => c,
            None => "unknown"@,
        },
    }
}

/// The URL that event details name.
pub fn details_url(event_url: Option<&str>, calendar_url: Option<&str>) -> (r: String)
    ensures
        r@ == details_url_of(opt_ref_view(event_url), opt_ref_view(calendar_url)),
{
    match event_url {
        Some(u) => String::from_str(u),
        None => match calendar_url {
            Some(c) => String::from_str(c),
            None => String::from_str("unknown"),
        },
    }
}

/// The calendar data of the first resource that has some.
pub open spec fn first_calendar_data(rsrc: Seq<DavResourceView>) -> Option<Seq<char>>
    decreases rsrc.len(),
{
    if rsrc.len() == 0 {
        None
    } else if rsrc[0].calendar_data is Some {
        rsrc[0].calendar_data
    } else {
        first_calendar_data(rsrc.drop_first())
    }
}

/// The ICS text that a UID query found: that of the first returned resource
/// with calendar data; a missing-resource error when there is none.
pub fn calendar_data_for_uid(resources: &Vec<DavResource>, uid: &str) -> (r: Result<
    String,
    CalDavError,
>)
    ensures
        match r {
            Ok(s) => first_calendar_data(resources_view(resources@)) == Some(s@),
            Err(e) => first_calendar_data(resources_view(resources@)) is None && e@
                == CalDavErrorView::ResourceNotFound(
                "event with UID '"@ + uid@ + "' not found"@,
            ),
        },
{
    let ghost rv = resources_view(resources@);
    let mut i: usize = 0;
    assert(rv.skip(0) =~= rv);
    while i < resources.len()
        invariant
            0 <= i <= resources@.len(),
            rv == resources_view(resources@),
            first_calendar_data(rv) == first_calendar_data(rv.skip(i as int)),
        decreases resources@.len() - i,
    {
        assert(rv.skip(i as int).drop_first() =~= rv.skip(i + 1));
        assert(rv.skip(i as int)[0] == resources@[i as int]@);
        match &resources[i].calendar_data {
            Some(d) => {
                return Ok(d.clone());
            },
            None => {},
        }
        i += 1;
    }
    let mut m = String::from_str("event with UID '");
    m.append(uid);
    m.append("' not found");
    Err(CalDavError::ResourceNotFound(m))
}

/// The reply with the details of the events of an ICS text: one description
/// per event, separated by `---` lines.
pub open spec fn details_reply(ics: Seq<char>, url: Seq<char>) -> Result<Seq<char>, CalDavErrorView> {
    match crate::ics::parser::parsed_details(ics, url) {
        Err(e) => Err(e),
        Ok(ds) => if ds.len() == 0 {
            Ok("No event details found."@)
        } else {
            Ok(join(ds.map_values(|d: crate::ics::types::EventDetailView| crate::ics::types::detail_text(d)), "\n---\n"@))
        },
    }
}

/// The details of the events of an ICS text, one description per event.
pub fn render_event_details(ics: &str, url: &str) -> (r: Result<String, CalDavError>)
    ensures
        match r {
            Ok(s) => details_reply(ics@, url@) == Ok::<Seq<char>, CalDavErrorView>(s@),
            Err(e) => details_reply(ics@, url@) == Err::<Seq<char>, CalDavErrorView>(e@),
        },
{
    let details = crate::ics::parser::parse_event_details(ics, url)?;
    if details.len() == 0 {
        return Ok(String::from_str("No event details found."));
    }
    let ghost dv = crate::ics::parser::detail_views(details@);
    let mut out: Vec<String> = Vec::new();
    let mut k: usize = 0;
    while k < details.len()
        invariant
            0 <= k <= details@.len(),
            dv == crate::ics::parser::detail_views(details@),
            crate::ics::parser::all_details_valid(details@),
            string_views(out@) == dv.subrange(0, k as int).map_values(
                |d: crate::ics::types::EventDetailView| crate::ics::types::detail_text(d),
            ),
        decreases details@.len() - k,
    {
        assert(crate::ics::types::detail_times_valid(details@[k as int]@));
        let text = details[k].display();
        let ghost prev = string_views(out@);
        out.push(text);
        assert(string_views(out@) =~= prev.push(crate::ics::types::detail_text(dv[k as int])));
        assert(dv.subrange(0, k + 1).map_values(
            |d: crate::ics::types::EventDetailView| crate::ics::types::detail_text(d),
        ) =~= dv.subrange(0, k as int).map_values(
            |d: crate::ics::types::EventDetailView| crate::ics::types::detail_text(d),
        ).push(crate::ics::types::detail_text(dv[k as int])));
        k += 1;
    }
    assert(dv.subrange(0, details@.len() as int) =~= dv);
    Ok(join_strings(&out, "\n---\n"))
}

// --- The raw dump ---

/// The character of a decimal digit.
pub open spec fn digit_char(d: nat) -> char {
    if d == 0 {
        '0'
    } else if d == 1 {
        '1'
    } else if d == 2 {
        '2'
    } else if d == 3 {
        '3'
    } else if d == 4 {
        '4'
    } else if d == 5 {
        '5'
    } else if d == 6 {
        '6'
    } else if d == 7 {
        '7'
    } else if d == 8 {
        '8'
    } else {
        '9'
    }
}

/// The decimal text of a number, without leading zeros.
pub open spec fn decimal(n: nat) -> Seq<char>
    decreases n,
{
    if n < 10 {
        seq![digit_char(n)]
    } else {
        decimal(n / 10).push(digit_char(n % 10))
    }
}

/// The decimal text of a number (`usize`'s `Display`).
pub fn decimal_text(n: usize) -> (r: String)
    ensures
        r@ == decimal(n as nat),
    decreases n,
{
    let d = n % 10;
    let c = if d == 0 {
        '0'
    } else if d == 1 {
        '1'
    } else if d == 2 {
        '2'
    } else if d == 3 {
        '3'
    } else if d == 4 {
        '4'
    } else if d == 5 {
        '5'
    } else if d == 6 {
        '6'
    } else if d == 7 {
        '7'
    } else if d == 8 {
        '8'
    } else {
        '9'
    };
    let one = string_from_chars(&[c]);
    assert(one@ =~= seq![digit_char((n % 10) as nat)]);
    if n < 10 {
        one
    } else {
        let mut s = decimal_text(n / 10);
        s.append(one.as_str());
        s
    }
}

/// The section of the raw dump for the resource at position `i`.
pub open spec fn dump_section(i: nat, r: DavResourceView) -> Seq<char> {
    "=== Resource "@ + decimal(i + 1) + " : "@ + r.href + " ===\n"@ + match r.calendar_data {
        Some(ics) => ics + if ics.len() > 0 && ics.last() == '\n' {
            Seq::empty()
        } else {
            "\n"@
        },
        None => "(no calendar-data field on this resource)\n"@,
    } + "\n"@
}

/// The sections of the raw dump for the first `n` resources.
pub open spec fn dump_sections(rsrc: Seq<DavResourceView>, n: nat) -> Seq<char>
    decreases n,
{
    if n == 0 {
        Seq::empty()
    } else {
        dump_sections(rsrc, (n - 1) as nat) + dump_section((n - 1) as nat, rsrc[n - 1])
    }
}

/// The raw dump of a calendar query: a header with the count and the window,
/// then every returned ICS body as it came.
pub open spec fn raw_dump(rsrc: Seq<DavResourceView>, start: Seq<char>, end: Seq<char>) -> Seq<
    char,
> {
    decimal(rsrc.len()) + " resource(s) returned for "@ + start + ".."@ + end + "\n\n"@
        + dump_sections(rsrc, rsrc.len())
}

/// The unparsed ICS bodies that a calendar query returned, each under a
/// header naming its position and href.
#[verifier::spinoff_prover]
#[verifier::rlimit(40)]
pub fn render_raw_dump(resources: &Vec<DavResource>, start_date: &str, end_date: &str) -> (r: String)
    ensures
        r@ == raw_dump(resources_view(resources@), start_date@, end_date@),
{
    let ghost rv = resources_view(resources@);
    let mut out = decimal_text(resources.len());
    out.append(" resource(s) returned for ");
    out.append(start_date);
    out.append("..");
    out.append(end_date);
    out.append("\n\n");
    let ghost head = out@;
    let mut i: usize = 0;
    assert(head =~= head + dump_sections(rv, 0));
    while i < resources.len()
        invariant
            0 <= i <= resources@.len(),
            rv == resources_view(resources@),
            out@ == head + dump_sections(rv, i as nat),
        decreases resources@.len() - i,
    {
        let r = &resources[i];
        let ghost before = out@;
        out.append("=== Resource ");
        let num = decimal_text(i + 1);
        out.append(num.as_str());
        out.append(" : ");
        out.append(r.href.as_str());
        out.append(" ===\n");
        match &r.calendar_data {
            Some(ics) => {
                out.append(ics.as_str());
                let cs = chars_of(ics.as_str());
                let ghost mid = out@;
                if !(cs.len() > 0 && cs[cs.len() - 1] == '\n') {
                    out.append("\n");
                } else {
                    assert(mid + Seq::<char>::empty() =~= mid);
                }
            },
            None => {
                out.append("(no calendar-data field on this resource)\n");
            },
        }
        out.append("\n");
        assert(out@ =~= before + dump_section(i as nat, rv[i as int]));
        i += 1;
    }
    out
}

// --- The calendar listing ---

/// The listing entry that stands for an account whose discovery failed.
pub open spec fn discovery_error_of(account: Seq<char>, e: CalDavErrorView) -> crate::ics::types::CalendarInfoView {
    crate::ics::types::CalendarInfoView {
        name: "(error: "@ + crate::error::error_message(e) + ")"@,
        url: Seq::empty(),
        account_name: account,
        color: None,
    }
}

/// The listing entry that stands for an account whose calendars could not
/// be discovered: its name carries the error.
pub fn discovery_error_entry(account_name: &str, err: &CalDavError) -> (r: crate::ics::types::CalendarInfo)
    ensures
        r@ == discovery_error_of(account_name@, err@),
{
    let msg = err.message();
    let mut name = String::from_str("(error: ");
    name.append(msg.as_str());
    name.append(")");
    crate::ics::types::CalendarInfo {
        name,
        url: String::new(),
        account_name: String::from_str(account_name),
        color: None,
    }
}

/// The reply of the calendar listing: one line per calendar, or a fixed
/// sentence when there is none.
pub open spec fn calendars_reply(cals: Seq<crate::ics::types::CalendarInfoView>) -> Seq<char> {
    if cals.len() == 0 {
        "No calendars found."@
    } else {
        join(cals.map_values(|c: crate::ics::types::CalendarInfoView| crate::ics::types::calendar_line(c)), "\n"@)
    }
}

/// The calendar listing: one line per calendar.
pub fn render_calendar_list(cals: &Vec<crate::ics::types::CalendarInfo>) -> (r: String)
    ensures
        r@ == calendars_reply(cals@.map_values(|c: crate::ics::types::CalendarInfo| c@)),
{
    if cals.len() == 0 {
        return String::from_str("No calendars found.");
    }
    let ghost cv = cals@.map_values(|c: crate::ics::types::CalendarInfo| c@);
    let mut out: Vec<String> = Vec::new();
    let mut k: usize = 0;
    while k < cals.len()
        invariant
            0 <= k <= cals@.len(),
            cv == cals@.map_values(|c: crate::ics::types::CalendarInfo| c@),
            string_views(out@) == cv.subrange(0, k as int).map_values(
                |c: crate::ics::types::CalendarInfoView| crate::ics::types::calendar_line(c),
            ),
        decreases cals@.len() - k,
    {
        let line = cals[k].display();
        let ghost prev = string_views(out@);
        out.push(line);
        assert(string_views(out@) =~= prev.push(crate::ics::types::calendar_line(cv[k as int])));
        assert(cv.subrange(0, k + 1).map_values(
            |c: crate::ics::types::CalendarInfoView| crate::ics::types::calendar_line(c),
        ) =~= cv.subrange(0, k as int).map_values(
            |c: crate::ics::types::CalendarInfoView| crate::ics::types::calendar_line(c),
        ).push(crate::ics::types::calendar_line(cv[k as int])));
        k += 1;
    }
    assert(cv.subrange(0, cals@.len() as int) =~= cv);
    join_strings(&out, "\n")
}

} // verus!

verus! {

proof fn lemma_exdate_rdate_prefixed(block: Seq<Seq<char>>)
    ensures
        forall|i: int|
            0 <= i < exdate_rdate_lines(block).len() ==> starts_with(
                #[trigger] exdate_rdate_lines(block)[i],
                "EXDATE"@,
            ) || starts_with(exdate_rdate_lines(block)[i], "RDATE"@),
    decreases block.len(),
{
    if block.len() > 0 {
        lemma_exdate_rdate_prefixed(block.drop_first());
        let l = block[0];
        let rest = exdate_rdate_lines(block.drop_first());
        if starts_with(l, "EXDATE"@) || starts_with(l, "RDATE"@) {
            let s = seq![l] + rest;
            assert forall|i: int| 0 <= i < s.len() implies starts_with(#[trigger] s[i], "EXDATE"@)
                || starts_with(s[i], "RDATE"@) by {
                if i > 0 {
                    assert(s[i] == rest[i - 1]);
                }
            }
        }
    }
}

proof fn lemma_synthetic_prefixed(block: Seq<Seq<char>>)
    ensures
        forall|i: int|
            0 <= i < synthetic_exdates(block).len() ==> starts_with(
                #[trigger] synthetic_exdates(block)[i],
                "EXDATE"@,
            ),
    decreases block.len(),
{
    if block.len() > 0 {
        lemma_synthetic_prefixed(block.drop_first());
        let l = block[0];
        let rest = synthetic_exdates(block.drop_first());
        if starts_with(l, "RECURRENCE-ID"@) {
            let first = "EXDATE"@ + l.subrange(13, l.len() as int);
            assert(first.subrange(0, "EXDATE"@.len() as int) =~= "EXDATE"@);
            let s = seq![first] + rest;
            assert forall|i: int| 0 <= i < s.len() implies starts_with(#[trigger] s[i], "EXDATE"@) by {
                if i > 0 {
                    assert(s[i] == rest[i - 1]);
                }
            }
        }
    }
}

proof fn lemma_modifiers_prefixed(lines: Seq<Seq<char>>, in_vevent: bool, block: Seq<Seq<char>>)
    ensures
        forall|i: int|
            0 <= i < modifiers_scan(lines, in_vevent, block).len() ==> starts_with(
                #[trigger] modifiers_scan(lines, in_vevent, block)[i],
                "EXDATE"@,
            ) || starts_with(modifiers_scan(lines, in_vevent, block)[i], "RDATE"@),
    decreases lines.len(),
{
    if lines.len() > 0 {
        let l = lines[0];
        let rest = lines.drop_first();
        if l == begin_vevent() {
            lemma_modifiers_prefixed(rest, true, Seq::empty());
            assert(modifiers_scan(lines, in_vevent, block) == modifiers_scan(rest, true, Seq::empty()));
        } else if l == end_vevent() {
            lemma_modifiers_prefixed(rest, false, block);
            assert(modifiers_scan(lines, in_vevent, block) == block_modifiers(block) + modifiers_scan(
                rest,
                false,
                block,
            ));
            lemma_exdate_rdate_prefixed(block);
            lemma_synthetic_prefixed(block);
            let a = block_modifiers(block);
            let b = modifiers_scan(rest, false, block);
            let s = a + b;
            assert forall|i: int| 0 <= i < s.len() implies starts_with(#[trigger] s[i], "EXDATE"@)
                || starts_with(s[i], "RDATE"@) by {
                if i < a.len() {
                    assert(s[i] == a[i]);
                    if is_master_block(block) {
                        assert(a == exdate_rdate_lines(block));
                        assert(starts_with(a[i], "EXDATE"@) || starts_with(a[i], "RDATE"@));
                    } else if is_override_block(block) {
                        assert(a == synthetic_exdates(block));
                        assert(starts_with(a[i], "EXDATE"@));
                    }
                } else {
                    assert(s[i] == b[i - a.len()]);
                }
            }
        } else if in_vevent {
            lemma_modifiers_prefixed(rest, true, block.push(l));
            assert(modifiers_scan(lines, in_vevent, block) == modifiers_scan(rest, true, block.push(l)));
        } else {
            lemma_modifiers_prefixed(rest, false, block);
            assert(modifiers_scan(lines, in_vevent, block) == modifiers_scan(rest, false, block));
        }
    }
}

/// Law: every recurrence modifier of an ICS text is an EXDATE or RDATE
/// line; a RECURRENCE-ID never reaches the expander as anything but an
/// exclusion.
pub proof fn law_modifiers_are_exdate_or_rdate(ics: Seq<char>)
    ensures
        forall|i: int|
            0 <= i < recurrence_modifiers(ics).len() ==> starts_with(
                #[trigger] recurrence_modifiers(ics)[i],
                "EXDATE"@,
            ) || starts_with(recurrence_modifiers(ics)[i], "RDATE"@),
{
    lemma_modifiers_prefixed(clean_lines_of(ics), false, Seq::empty());
}

/// Law: lines outside every VEVENT (a VTIMEZONE whose STANDARD and DAYLIGHT
/// parts carry RRULEs of their own, say) change neither the master RRULE nor
/// the recurrence modifiers read from the lines that follow them.
pub proof fn law_lines_outside_vevents_are_ignored(
    outside: Seq<Seq<char>>,
    rest: Seq<Seq<char>>,
    block: Seq<Seq<char>>,
)
    requires
        forall|i: int|
            0 <= i < outside.len() ==> #[trigger] outside[i] != begin_vevent() && outside[i]
                != end_vevent(),
    ensures
        rrule_scan(outside + rest, false, block) == rrule_scan(rest, false, block),
        modifiers_scan(outside + rest, false, block) == modifiers_scan(rest, false, block),
    decreases outside.len(),
{
    if outside.len() == 0 {
        assert(outside + rest =~= rest);
    } else {
        let tail = outside.drop_first();
        assert forall|i: int| 0 <= i < tail.len() implies #[trigger] tail[i] != begin_vevent()
            && tail[i] != end_vevent() by {
            assert(tail[i] == outside[i + 1]);
        }
        law_lines_outside_vevents_are_ignored(tail, rest, block);
        let all = outside + rest;
        assert(all[0] == outside[0]);
        assert(all.drop_first() =~= tail + rest);
    }
}

/// Inside a VEVENT, lines that neither open nor close one are collected.
proof fn lemma_scan_collects_block(b: Seq<Seq<char>>, tail: Seq<Seq<char>>, acc: Seq<Seq<char>>)
    requires
        forall|i: int| 0 <= i < b.len() ==> #[trigger] b[i] != begin_vevent() && b[i] != end_vevent(),
    ensures
        rrule_scan(b + tail, true, acc) == rrule_scan(tail, true, acc + b),
        modifiers_scan(b + tail, true, acc) == modifiers_scan(tail, true, acc + b),
    decreases b.len(),
{
    if b.len() == 0 {
        assert(b + tail =~= tail);
        assert(acc + b =~= acc);
    } else {
        let rest = b.drop_first();
        assert forall|i: int| 0 <= i < rest.len() implies #[trigger] rest[i] != begin_vevent()
            && rest[i] != end_vevent() by {
            assert(rest[i] == b[i + 1]);
        }
        lemma_scan_collects_block(rest, tail, acc.push(b[0]));
        let all = b + tail;
        assert(all[0] == b[0]);
        assert(all.drop_first() =~= rest + tail);
        assert(acc.push(b[0]) + rest =~= acc + b);
    }
}

/// Law: a VEVENT block is read on its own: the RRULE of a text that starts
/// with a VEVENT is the first `RRULE:` value of that block when the block is
/// a master (it has an RRULE and no RECURRENCE-ID), and otherwise comes from
/// what follows; its recurrence modifiers are the block's own (its EXDATE and
/// RDATE lines for a master, one EXDATE per RECURRENCE-ID for an override,
/// in order) followed by those of what follows.
pub proof fn law_vevent_blocks_read_in_order(
    block: Seq<Seq<char>>,
    rest: Seq<Seq<char>>,
    in_vevent: bool,
    prev: Seq<Seq<char>>,
)
    requires
        forall|i: int|
            0 <= i < block.len() ==> #[trigger] block[i] != begin_vevent() && block[i]
                != end_vevent(),
    ensures
        rrule_scan(seq![begin_vevent()] + block + seq![end_vevent()] + rest, in_vevent, prev) == if is_master_block(block) {
            first_rrule_value(block)
        } else {
            rrule_scan(rest, false, block)
        },
        modifiers_scan(seq![begin_vevent()] + block + seq![end_vevent()] + rest, in_vevent, prev)
            == block_modifiers(block) + modifiers_scan(rest, false, block),
{
    reveal_strlit("BEGIN:VEVENT");
    reveal_strlit("END:VEVENT");
    let lines = seq![begin_vevent()] + block + seq![end_vevent()] + rest;
    let tail = seq![end_vevent()] + rest;
    assert(lines[0] == begin_vevent());
    assert(lines.drop_first() =~= block + tail);
    lemma_scan_collects_block(block, tail, Seq::empty());
    assert(Seq::<Seq<char>>::empty() + block =~= block);
    assert(tail[0] == end_vevent());
    assert(tail.drop_first() =~= rest);
    assert(end_vevent() != begin_vevent());
}

/// Law: an ICS text with CR LF line ends gives the same master RRULE and
/// the same recurrence modifiers as the same text with plain LF line ends.
pub proof fn law_crlf_reads_as_lf(ics: Seq<char>)
    ensures
        master_rrule(crate::text::crlf_to_lf(ics)) == master_rrule(ics),
        recurrence_modifiers(crate::text::crlf_to_lf(ics)) == recurrence_modifiers(ics),
{
    crate::text::lemma_clean_lines_crlf(ics);
}

/// Law: a recurring event whose DTSTART has a zone is expanded in that
/// zone. The recurrence text handed to the expander opens with the DTSTART
/// as wall-clock time in the event's zone (so occurrences keep that
/// wall-clock time across DST changes), and the listing shows exactly the
/// occurrences the expander returns for that text, each with its times
/// in the event's zone; when the expander fails the event is listed itself.
pub proof fn law_listing_expands_in_event_zone(
    e: EventSummaryView,
    ics: Seq<char>,
    rs: i64,
    re: i64,
    rule: Seq<char>,
    z: Seq<char>,
)
    requires
        e.is_recurring,
        master_rrule(ics) == Some(rule),
        e.dtstart_tz == Some(z),
        ts_valid(rs + event_length(e)),
        ts_valid(re + event_length(e)),
        crate::ics::rrule::recurrence_zoned(rule, e.dtstart, Some(z), recurrence_modifiers(ics)),
    ensures
        starts_with(
            crate::ics::rrule::rrule_input(rule, e.dtstart, Some(z), recurrence_modifiers(ics)),
            "DTSTART;TZID="@ + z + ":"@ + crate::ics::timezone::spec_format_local(
                z,
                e.dtstart,
                "%Y%m%dT%H%M%S"@,
            ),
        ),
        match crate::ics::rrule::spec_rrule_all(
            crate::ics::rrule::rrule_input(rule, e.dtstart, Some(z), recurrence_modifiers(ics)),
            rs,
            re,
            500,
        ) {
            Ok(occs) => event_outcome(e, ics, rs, re) == (
                Seq::<EventSummaryView>::empty(),
                occs.map_values(
                    |o: i64|
                        instance_line(
                            crate::ics::rrule::instance_of(
                                o,
                                event_length(e) as i64,
                                e.summary,
                                e.uid,
                                e.location,
                                None,
                                Some(z),
                            ),
                        ),
                ),
            ),
            Err(_) => event_outcome(e, ics, rs, re) == (seq![e], Seq::<Seq<char>>::empty()),
        },
{
    let d = event_length(e);
    let mods = recurrence_modifiers(ics);
    let input = crate::ics::rrule::rrule_input(rule, e.dtstart, Some(z), mods);
    let head = "DTSTART;TZID="@ + z + ":"@ + crate::ics::timezone::spec_format_local(
        z,
        e.dtstart,
        "%Y%m%dT%H%M%S"@,
    );
    assert(input.subrange(0, head.len() as int) =~= head);
    match crate::ics::rrule::spec_rrule_all(input, rs, re, 500) {
        Ok(occs) => {
            let insts = crate::ics::rrule::instances_of(
                occs,
                d as i64,
                e.summary,
                e.uid,
                e.location,
                None,
                Some(z),
            );
            assert(insts.map_values(|i: EventInstanceView| instance_line(i)) =~= occs.map_values(
                |o: i64|
                    instance_line(
                        crate::ics::rrule::instance_of(
                            o,
                            d as i64,
                            e.summary,
                            e.uid,
                            e.location,
                            None,
                            Some(z),
                        ),
                    ),
            ));
        },
        Err(_) => {},
    }
}

} // verus!
