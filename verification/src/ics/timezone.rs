//! Time zones and date-times of ICS data.
//!
//! An instant is a count of seconds since 1970-01-01T00:00:00Z (`i64`);
//! a wall-clock time is written the same way, as if it were UTC.
//! A time zone is known by its IANA name.
use vstd::prelude::*;

use chrono::TimeZone;

use crate::error::{CalDavError, CalDavErrorView};
use crate::text::{
    chars_of, clean_lines, clean_lines_of, contains, contains_lit, ends_with, eq_lit, opt_view,
    starts_with, starts_with_lit, string_from_chars, sub_chars, trim, trim_chars, views,
};

verus! {

/// The earliest instant a date-time can hold: -262143-01-01T00:00:00Z.
pub open spec fn min_ts() -> int {
    -8334601315200
}

/// The latest instant a date-time can hold: +262142-12-31T23:59:59Z.
pub open spec fn max_ts() -> int {
    8210266876799
}

/// The earliest instant a date-time can hold.
pub fn min_ts_exec() -> (r: i64)
    ensures
        r == min_ts(),
{
    -8334601315200
}

/// The latest instant a date-time can hold.
pub fn max_ts_exec() -> (r: i64)
    ensures
        r == max_ts(),
{
    8210266876799
}

/// An instant within the range of calendar date-times.
pub open spec fn ts_valid(t: int) -> bool {
    min_ts() <= t <= max_ts()
}

/// The `strftime` patterns this library formats with.
pub open spec fn known_format(fmt: Seq<char>) -> bool {
    ||| fmt == "%Y-%m-%d %H:%M UTC"@
    ||| fmt == "%Y-%m-%d %H:%M"@
    ||| fmt == "%Y%m%dT%H%M%S"@
    ||| fmt == "%Y%m%dT%H%M%SZ"@
    ||| fmt == "%Y%m%d"@
    ||| fmt == "%Y-%m-%d"@
}

/// The canonical name of the IANA zone that a text names, if it names one.
pub uninterp spec fn spec_tz_parse(name: Seq<char>) -> Option<Seq<char>>;

/// Parses a zone name with `chrono_tz::Tz`'s `FromStr` and returns the zone's
/// `name()`; the result is named `spec_tz_parse`.
#[verifier::external_body]
pub(crate) fn tz_parse(name: &str) -> (r: Option<String>)
    ensures
        opt_view(r) == spec_tz_parse(name@),
{
    name.parse::<chrono_tz::Tz>().ok().map(|tz| tz.name().to_string())
}

/// The wall-clock time that `chrono::NaiveDateTime::parse_from_str` reads
/// from a text with a pattern, or the text of its error.
pub uninterp spec fn spec_naive_datetime_parse(value: Seq<char>, fmt: Seq<char>) -> Result<
    i64,
    Seq<char>,
>;

/// Calls `chrono::NaiveDateTime::parse_from_str`; the wall-clock time comes
/// back as seconds since the epoch, the error as its message. The result is
/// named `spec_naive_datetime_parse`; a parsed date-time is always within the
/// range of date-times.
#[verifier::external_body]
fn naive_datetime_parse(value: &str, fmt: &str) -> (r: Result<i64, String>)
    ensures
        match r {
            Ok(t) => spec_naive_datetime_parse(value@, fmt@) == Ok::<i64, Seq<char>>(t)
                && ts_valid(t as int),
            Err(e) => spec_naive_datetime_parse(value@, fmt@) == Err::<i64, Seq<char>>(e@),
        },
{
    chrono::NaiveDateTime::parse_from_str(value, fmt).map(|n| n.and_utc().timestamp()).map_err(
        |e| e.to_string(),
    )
}

/// The midnight of the date that `chrono::NaiveDate::parse_from_str` reads
/// from a text with a pattern, or the text of its error.
pub uninterp spec fn spec_naive_date_parse(value: Seq<char>, fmt: Seq<char>) -> Result<
    i64,
    Seq<char>,
>;

/// Calls `chrono::NaiveDate::parse_from_str`; the date comes back as the
/// seconds of its midnight, the error as its message. The result is named
/// `spec_naive_date_parse`; a parsed date is a midnight within the range of
/// date-times.
#[verifier::external_body]
pub(crate) fn naive_date_parse(value: &str, fmt: &str) -> (r: Result<i64, String>)
    ensures
        match r {
            Ok(t) => spec_naive_date_parse(value@, fmt@) == Ok::<i64, Seq<char>>(t) && ts_valid(
                t as int,
            ) && t % 86400 == 0,
            Err(e) => spec_naive_date_parse(value@, fmt@) == Err::<i64, Seq<char>>(e@),
        },
{
    chrono::NaiveDate::parse_from_str(value, fmt).map(
        |d| d.and_time(chrono::NaiveTime::MIN).and_utc().timestamp(),
    ).map_err(|e| e.to_string())
}

/// The earliest instant at which the zone's clocks show a wall-clock time,
/// if they ever do.
pub uninterp spec fn spec_local_to_utc(zone: Seq<char>, local: i64) -> Option<i64>;

/// Converts a wall-clock time in a zone to an instant with
/// `TimeZone::from_local_datetime(..).earliest()` of `chrono_tz::Tz`; the
/// result is named `spec_local_to_utc`, and is within the range of date-times.
#[verifier::external_body]
fn local_to_utc(zone: &str, local: i64) -> (r: Option<i64>)
    requires
        ts_valid(local as int),
    ensures
        r == spec_local_to_utc(zone@, local),
        r matches Some(t) ==> ts_valid(t as int),
{
    let Ok(tz) = zone.parse::<chrono_tz::Tz>() else { return None };
    let naive = chrono::DateTime::from_timestamp(local, 0)?.naive_utc();
    tz.from_local_datetime(&naive).earliest().map(|dt| dt.timestamp())
}

/// The text of an instant in UTC under a `strftime` pattern.
pub uninterp spec fn spec_format_utc(t: i64, fmt: Seq<char>) -> Seq<char>;

/// Formats an instant as a `chrono::DateTime<Utc>` with `format`; the text is
/// named `spec_format_utc`.
#[verifier::external_body]
pub(crate) fn format_utc(t: i64, fmt: &str) -> (r: String)
    requires
        ts_valid(t as int),
        known_format(fmt@),
    ensures
        r@ == spec_format_utc(t, fmt@),
{
    match chrono::DateTime::from_timestamp(t, 0) {
        Some(dt) => dt.format(fmt).to_string(),
        None => String::new(),
    }
}

/// The text of an instant as the clocks of a zone show it, under a pattern.
pub uninterp spec fn spec_format_local(zone: Seq<char>, t: i64, fmt: Seq<char>) -> Seq<char>;

/// Converts an instant to a zone with `with_timezone` and formats it with
/// `format`; the text is named `spec_format_local`.
#[verifier::external_body]
pub(crate) fn format_local(zone: &str, t: i64, fmt: &str) -> (r: String)
    requires
        ts_valid(t as int),
        known_format(fmt@),
    ensures
        r@ == spec_format_local(zone@, t, fmt@),
{
    match (zone.parse::<chrono_tz::Tz>(), chrono::DateTime::from_timestamp(t, 0)) {
        (Ok(tz), Some(dt)) => dt.with_timezone(&tz).format(fmt).to_string(),
        _ => String::new(),
    }
}

/// An IANA time zone, known by its canonical name.
#[derive(Clone, Debug)]
pub struct Tz {
    name: String,
}

impl View for Tz {
    type V = Seq<char>;

    closed spec fn view(&self) -> Seq<char> {
        self.name@
    }
}

impl Tz {
    /// The canonical IANA name of the zone, e.g. `America/New_York`.
    pub fn name(&self) -> (r: &str)
        ensures
            r@ == self@,
    {
        self.name.as_str()
    }

    /// A copy of the zone.
    pub fn duplicate(&self) -> (r: Tz)
        ensures
            r@ == self@,
    {
        Tz { name: self.name.clone() }
    }
}

/// The view of an optional zone.
pub open spec fn opt_tz_view(o: Option<Tz>) -> Option<Seq<char>> {
    match o {
        Some(t) => Some(t@),
        None => None,
    }
}

/// A copy of an optional zone.
pub fn duplicate_opt(o: &Option<Tz>) -> (r: Option<Tz>)
    ensures
        opt_tz_view(r) == opt_tz_view(*o),
{
    match o {
        Some(t) => Some(t.duplicate()),
        None => None,
    }
}

/// `s` with every leading repetition of `p` removed (`trim_start_matches`).
pub open spec fn strip_all_prefix(s: Seq<char>, p: Seq<char>) -> Seq<char>
    decreases s.len(),
{
    if p.len() > 0 && starts_with(s, p) {
        strip_all_prefix(s.subrange(p.len() as int, s.len() as int), p)
    } else {
        s
    }
}

/// `s` with every trailing repetition of `p` removed (`trim_end_matches`).
pub open spec fn strip_all_suffix(s: Seq<char>, p: Seq<char>) -> Seq<char>
    decreases s.len(),
{
    if p.len() > 0 && ends_with(s, p) {
        strip_all_suffix(s.subrange(0, s.len() - p.len()), p)
    } else {
        s
    }
}

/// The IANA zone behind a common Windows or legacy zone name.
pub open spec fn windows_alias(tzid: Seq<char>) -> Option<Seq<char>> {
    if tzid == "Eastern Standard Time"@ || tzid == "Eastern Daylight Time"@ || tzid
        == "US/Eastern"@ {
        Some("America/New_York"@)
    } else if tzid == "Central Standard Time"@ || tzid == "Central Daylight Time"@ || tzid
        == "US/Central"@ {
        Some("America/Chicago"@)
    } else if tzid == "Mountain Standard Time"@ || tzid == "Mountain Daylight Time"@ || tzid
        == "US/Mountain"@ {
        Some("America/Denver"@)
    } else if tzid == "Pacific Standard Time"@ || tzid == "Pacific Daylight Time"@ || tzid
        == "US/Pacific"@ {
        Some("America/Los_Angeles"@)
    } else if tzid == "GMT"@ || tzid == "Greenwich Mean Time"@ {
        Some("Etc/GMT"@)
    } else if tzid == "UTC"@ {
        Some("Etc/UTC"@)
    } else if tzid == "W. Europe Standard Time"@ {
        Some("Europe/Berlin"@)
    } else if tzid == "Romance Standard Time"@ {
        Some("Europe/Paris"@)
    } else if tzid == "GMT Standard Time"@ {
        Some("Europe/London"@)
    } else if tzid == "Tokyo Standard Time"@ {
        Some("Asia/Tokyo"@)
    } else if tzid == "China Standard Time"@ {
        Some("Asia/Shanghai"@)
    } else if tzid == "AUS Eastern Standard Time"@ {
        Some("Australia/Sydney"@)
    } else {
        None
    }
}

/// A TZID without the vendor prefixes that some servers put before it.
pub open spec fn strip_vendor_prefixes(tzid: Seq<char>) -> Seq<char> {
    strip_all_prefix(
        strip_all_prefix(
            strip_all_prefix(tzid, "/mozilla.org/20050126_1/"@),
            "/citadel.org/20190914_1/"@,
        ),
        "/softwarestudio.org/Olson_20011030_5/"@,
    )
}

/// The zone that a TZID stands for: the TZID itself if it names a zone, else
/// the TZID without vendor prefixes, else its Windows alias.
pub open spec fn resolved_tz(tzid: Seq<char>) -> Option<Seq<char>> {
    match spec_tz_parse(tzid) {
        Some(n) => Some(n),
        None => match spec_tz_parse(strip_vendor_prefixes(tzid)) {
            Some(n) => Some(n),
            None => match windows_alias(tzid) {
                Some(a) => spec_tz_parse(a),
                None => None,
            },
        },
    }
}

/// `s` with every leading repetition of `lit` removed.
fn strip_prefix_all(s: &[char], lit: &str) -> (r: Vec<char>)
    ensures
        r@ == strip_all_prefix(s@, lit@),
{
    let n = lit.unicode_len();
    let slen = s.len();
    let mut lo: usize = 0;
    if n == 0 {
        return sub_chars(s, 0, s.len());
    }
    assert(s@.subrange(0, s@.len() as int) =~= s@);
    while crate::text::occurs_lit_at(s, lit, lo)
        invariant
            n == lit@.len() > 0,
            slen == s@.len(),
            lo <= s@.len(),
            strip_all_prefix(s@, lit@) == strip_all_prefix(s@.subrange(lo as int, s@.len() as int), lit@),
        decreases s@.len() - lo,
    {
        assert(starts_with(s@.subrange(lo as int, s@.len() as int), lit@)) by {
            assert(s@.subrange(lo as int, s@.len() as int).subrange(0, n as int) =~= s@.subrange(
                lo as int,
                lo + n,
            ));
        }
        assert(s@.subrange(lo as int, s@.len() as int).subrange(n as int, s@.len() - lo)
            =~= s@.subrange(lo + n, s@.len() as int));
        lo = lo + n;
    }
    assert(!starts_with(s@.subrange(lo as int, s@.len() as int), lit@)) by {
        if starts_with(s@.subrange(lo as int, s@.len() as int), lit@) {
            assert(s@.subrange(lo as int, s@.len() as int).subrange(0, n as int) =~= s@.subrange(
                lo as int,
                lo + n,
            ));
        }
    }
    sub_chars(s, lo, s.len())
}

/// Maps a TZID to a zone. Handles the zone names themselves, names behind
/// the vendor prefixes that some servers add, and common Windows aliases.
pub fn resolve_timezone(tzid: &str) -> (r: Option<Tz>)
    ensures
        opt_tz_view(r) == resolved_tz(tzid@),
{
    if let Some(name) = tz_parse(tzid) {
        return Some(Tz { name });
    }
    let cs = chars_of(tzid);
    let s1 = strip_prefix_all(cs.as_slice(), "/mozilla.org/20050126_1/");
    let s2 = strip_prefix_all(s1.as_slice(), "/citadel.org/20190914_1/");
    let s3 = strip_prefix_all(s2.as_slice(), "/softwarestudio.org/Olson_20011030_5/");
    let stripped = string_from_chars(s3.as_slice());
    if let Some(name) = tz_parse(stripped.as_str()) {
        return Some(Tz { name });
    }
    let alias: Option<&str> = if eq_lit(cs.as_slice(), "Eastern Standard Time") || eq_lit(
        cs.as_slice(),
        "Eastern Daylight Time",
    ) || eq_lit(cs.as_slice(), "US/Eastern") {
        Some("America/New_York")
    } else if eq_lit(cs.as_slice(), "Central Standard Time") || eq_lit(
        cs.as_slice(),
        "Central Daylight Time",
    ) || eq_lit(cs.as_slice(), "US/Central") {
        Some("America/Chicago")
    } else if eq_lit(cs.as_slice(), "Mountain Standard Time") || eq_lit(
        cs.as_slice(),
        "Mountain Daylight Time",
    ) || eq_lit(cs.as_slice(), "US/Mountain") {
        Some("America/Denver")
    } else if eq_lit(cs.as_slice(), "Pacific Standard Time") || eq_lit(
        cs.as_slice(),
        "Pacific Daylight Time",
    ) || eq_lit(cs.as_slice(), "US/Pacific") {
        Some("America/Los_Angeles")
    } else if eq_lit(cs.as_slice(), "GMT") || eq_lit(cs.as_slice(), "Greenwich Mean Time") {
        Some("Etc/GMT")
    } else if eq_lit(cs.as_slice(), "UTC") {
        Some("Etc/UTC")
    } else if eq_lit(cs.as_slice(), "W. Europe Standard Time") {
        Some("Europe/Berlin")
    } else if eq_lit(cs.as_slice(), "Romance Standard Time") {
        Some("Europe/Paris")
    } else if eq_lit(cs.as_slice(), "GMT Standard Time") {
        Some("Europe/London")
    } else if eq_lit(cs.as_slice(), "Tokyo Standard Time") {
        Some("Asia/Tokyo")
    } else if eq_lit(cs.as_slice(), "China Standard Time") {
        Some("Asia/Shanghai")
    } else if eq_lit(cs.as_slice(), "AUS Eastern Standard Time") {
        Some("Australia/Sydney")
    } else {
        None
    };
    match alias {
        Some(a) => match tz_parse(a) {
            Some(name) => Some(Tz { name }),
            None => None,
        },
        None => None,
    }
}

// --- The TZID table of an ICS text ---

/// One TZID of a VTIMEZONE block and the zone it stands for.
pub struct TzEntry {
    pub tzid: String,
    pub tz: Tz,
}

/// The TZIDs declared in the VTIMEZONE blocks of an ICS text, with their
/// zones; a TZID declared twice keeps its last entry.
pub struct TzMap {
    pub entries: Vec<TzEntry>,
}

/// The pairs (TZID, zone name) of a table's entries.
pub open spec fn entry_pairs(v: Seq<TzEntry>) -> Seq<(Seq<char>, Seq<char>)> {
    v.map_values(|e: TzEntry| (e.tzid@, e.tz@))
}

/// The map from TZID to zone name that a list of insertions builds; a later
/// insertion of a TZID replaces an earlier one.
pub open spec fn map_of(pairs: Seq<(Seq<char>, Seq<char>)>) -> Map<Seq<char>, Seq<char>>
    decreases pairs.len(),
{
    if pairs.len() == 0 {
        Map::empty()
    } else {
        map_of(pairs.drop_last()).insert(pairs.last().0, pairs.last().1)
    }
}

impl View for TzMap {
    type V = Map<Seq<char>, Seq<char>>;

    open spec fn view(&self) -> Map<Seq<char>, Seq<char>> {
        map_of(entry_pairs(self.entries@))
    }
}

/// The entry of the last pair whose TZID is `k` among the first `n`.
pub open spec fn last_match(pairs: Seq<(Seq<char>, Seq<char>)>, k: Seq<char>, n: int) -> Option<
    Seq<char>,
>
    decreases n,
{
    if n <= 0 {
        None
    } else if pairs[n - 1].0 == k {
        Some(pairs[n - 1].1)
    } else {
        last_match(pairs, k, n - 1)
    }
}

/// The map of a list of insertions answers a lookup with the last insertion
/// of the key.
pub proof fn lemma_map_of_lookup(pairs: Seq<(Seq<char>, Seq<char>)>, k: Seq<char>)
    ensures
        match last_match(pairs, k, pairs.len() as int) {
            Some(v) => map_of(pairs).contains_key(k) && map_of(pairs)[k] == v,
            None => !map_of(pairs).contains_key(k),
        },
    decreases pairs.len(),
{
    if pairs.len() > 0 {
        let init = pairs.drop_last();
        lemma_map_of_lookup(init, k);
        assert forall|n: int| 0 <= n <= init.len() implies last_match(init, k, n) == last_match(
            pairs,
            k,
            n,
        ) by {
            lemma_last_match_prefix(pairs, init, k, n);
        }
    }
}

proof fn lemma_last_match_prefix(
    pairs: Seq<(Seq<char>, Seq<char>)>,
    init: Seq<(Seq<char>, Seq<char>)>,
    k: Seq<char>,
    n: int,
)
    requires
        pairs.len() > 0,
        init == pairs.drop_last(),
        0 <= n <= init.len(),
    ensures
        last_match(init, k, n) == last_match(pairs, k, n),
    decreases n,
{
    if n > 0 {
        lemma_last_match_prefix(pairs, init, k, n - 1);
    }
}

impl TzMap {
    /// The zone of a TZID, if the table holds it.
    pub fn get(&self, tzid: &str) -> (r: Option<Tz>)
        ensures
            match r {
                Some(z) => self@.contains_key(tzid@) && self@[tzid@] == z@,
                None => !self@.contains_key(tzid@),
            },
    {
        let ghost pairs = entry_pairs(self.entries@);
        proof {
            lemma_map_of_lookup(pairs, tzid@);
        }
        let key = chars_of(tzid);
        let mut n = self.entries.len();
        while n > 0
            invariant
                n <= self.entries@.len(),
                pairs == entry_pairs(self.entries@),
                key@ == tzid@,
                last_match(pairs, tzid@, self.entries@.len() as int) == last_match(
                    pairs,
                    tzid@,
                    n as int,
                ),
            decreases n,
        {
            let e = &self.entries[n - 1];
            let ek = chars_of(e.tzid.as_str());
            assert(pairs[n - 1] == (e.tzid@, e.tz@));
            if crate::text::seq_eq(ek.as_slice(), key.as_slice()) {
                assert(last_match(pairs, tzid@, n as int) == Some(e.tz@));
                proof {
                    lemma_map_of_lookup(pairs, tzid@);
                }
                return Some(e.tz.duplicate());
            }
            n -= 1;
        }
        proof {
            lemma_map_of_lookup(pairs, tzid@);
        }
        None
    }
}

/// The TZID on a `TZID:` line: what follows the `TZID:` prefixes, trimmed.
pub open spec fn tzid_of_line(l: Seq<char>) -> Seq<char> {
    trim(strip_all_prefix(l, "TZID:"@))
}

/// The insertions that the lines make, scanning from inside (`in_tz`) or
/// outside a VTIMEZONE block: a `TZID:` line inside a VTIMEZONE inserts its
/// TZID when the TZID resolves to a zone.
pub open spec fn tz_scan(lines: Seq<Seq<char>>, in_tz: bool) -> Seq<(Seq<char>, Seq<char>)>
    decreases lines.len(),
{
    if lines.len() == 0 {
        Seq::empty()
    } else {
        let l = lines[0];
        let rest = lines.drop_first();
        if l == "BEGIN:VTIMEZONE"@ {
            tz_scan(rest, true)
        } else if l == "END:VTIMEZONE"@ {
            tz_scan(rest, false)
        } else if in_tz && starts_with(l, "TZID:"@) {
            match resolved_tz(tzid_of_line(l)) {
                Some(n) => seq![(tzid_of_line(l), n)] + tz_scan(rest, true),
                None => tz_scan(rest, true),
            }
        } else {
            tz_scan(rest, in_tz)
        }
    }
}

/// The TZID table of an ICS text.
pub open spec fn tz_map_of(ics: Seq<char>) -> Map<Seq<char>, Seq<char>> {
    map_of(tz_scan(clean_lines_of(ics), false))
}

/// Extracts the VTIMEZONE TZIDs of an ICS text and the zones they stand for.
pub fn extract_timezones(ics: &str) -> (r: TzMap)
    ensures
        entry_pairs(r.entries@) == tz_scan(clean_lines_of(ics@), false),
        r@ == tz_map_of(ics@),
{
    let chars = chars_of(ics);
    let lines = clean_lines(chars.as_slice());
    let ghost all = views(lines@);
    let mut entries: Vec<TzEntry> = Vec::new();
    let mut in_vtimezone = false;
    let mut i: usize = 0;
    assert(all.skip(0) =~= all);
    assert(entry_pairs(entries@) =~= Seq::<(Seq<char>, Seq<char>)>::empty());
    while i < lines.len()
        invariant
            0 <= i <= lines@.len(),
            all == views(lines@),
            all == clean_lines_of(ics@),
            tz_scan(all, false) == entry_pairs(entries@) + tz_scan(all.skip(i as int), in_vtimezone),
        decreases lines@.len() - i,
    {
        let ghost rest = all.skip(i as int);
        assert(rest.drop_first() =~= all.skip(i + 1));
        assert(rest[0] == all[i as int]);
        let line = &lines[i];
        if eq_lit(line.as_slice(), "BEGIN:VTIMEZONE") {
            in_vtimezone = true;
        } else if eq_lit(line.as_slice(), "END:VTIMEZONE") {
            in_vtimezone = false;
        } else if in_vtimezone && starts_with_lit(line.as_slice(), "TZID:") {
            let stripped = strip_prefix_all(line.as_slice(), "TZID:");
            let tzid_chars = trim_chars(stripped.as_slice());
            let tzid = string_from_chars(tzid_chars.as_slice());
            if let Some(tz) = resolve_timezone(tzid.as_str()) {
                let ghost prev = entry_pairs(entries@);
                let ghost pair = (tzid@, tz@);
                entries.push(TzEntry { tzid, tz });
                assert(entry_pairs(entries@) =~= prev.push(pair));
                assert(prev + (seq![pair] + tz_scan(all.skip(i + 1), true)) =~= entry_pairs(
                    entries@,
                ) + tz_scan(all.skip(i + 1), true));
            }
        }
        i += 1;
    }
    assert(all.skip(lines@.len() as int) =~= Seq::<Seq<char>>::empty());
    assert(entry_pairs(entries@) + Seq::<(Seq<char>, Seq<char>)>::empty() =~= entry_pairs(
        entries@,
    ));
    TzMap { entries }
}

// --- Reading date-times ---

/// The length in bytes of a text in UTF-8.
pub open spec fn byte_len(s: Seq<char>) -> usize {
    vstd::utf8::encode_utf8(s).len() as usize
}

/// The instant (read as UTC) of a date-time value: `YYYYMMDDTHHMMSS` when the
/// value is at least 15 bytes and holds a `T`, `YYYYMMDD` (midnight) when it
/// is 8 bytes.
pub open spec fn parsed_naive(v: Seq<char>) -> Result<i64, CalDavErrorView> {
    if byte_len(v) >= 15 && contains(v, "T"@) {
        match spec_naive_datetime_parse(v, "%Y%m%dT%H%M%S"@) {
            Ok(t) => Ok(t),
            Err(e) => Err(CalDavErrorView::IcsParseError("bad datetime '"@ + v + "': "@ + e)),
        }
    } else if byte_len(v) == 8 {
        match spec_naive_date_parse(v, "%Y%m%d"@) {
            Ok(t) => Ok(t),
            Err(e) => Err(CalDavErrorView::IcsParseError("bad date '"@ + v + "': "@ + e)),
        }
    } else {
        Err(CalDavErrorView::IcsParseError("unrecognized datetime format: '"@ + v + "'"@))
    }
}

/// The zone of a TZID: the table's entry if it has one, else the zone the
/// TZID resolves to.
pub open spec fn zone_of(map: Map<Seq<char>, Seq<char>>, tzid: Seq<char>) -> Option<Seq<char>> {
    if map.contains_key(tzid) {
        Some(map[tzid])
    } else {
        resolved_tz(tzid)
    }
}

/// The instant of a DTSTART/DTEND value: a trailing `Z` means UTC; a TZID
/// with a known zone means wall-clock time in that zone (the earliest instant
/// when ambiguous); anything else is floating time, read as UTC.
pub open spec fn parsed_datetime(
    value: Seq<char>,
    tzid: Option<Seq<char>>,
    map: Map<Seq<char>, Seq<char>>,
) -> Result<i64, CalDavErrorView> {
    let v = trim(value);
    if ends_with(v, "Z"@) {
        parsed_naive(strip_all_suffix(v, "Z"@))
    } else {
        match tzid {
            Some(id) => match zone_of(map, id) {
                Some(zone) => match parsed_naive(v) {
                    Ok(n) => match spec_local_to_utc(zone, n) {
                        Some(t) => Ok(t),
                        None => Err(
                            CalDavErrorView::IcsParseError(
                                "ambiguous local time: "@ + v + " in "@ + id,
                            ),
                        ),
                    },
                    Err(e) => Err(e),
                },
                None => parsed_naive(v),
            },
            None => parsed_naive(v),
        }
    }
}

/// The view of a date-time result.
pub open spec fn ts_result_view(r: Result<i64, CalDavError>) -> Result<i64, CalDavErrorView> {
    match r {
        Ok(t) => Ok(t),
        Err(e) => Err(e@),
    }
}

/// Reads a date-time value as UTC.
fn parse_naive(value: &str) -> (r: Result<i64, CalDavError>)
    ensures
        ts_result_view(r) == parsed_naive(value@),
        r matches Ok(t) ==> ts_valid(t as int),
{
    let cs = chars_of(value);
    if value.len() >= 15 && contains_lit(cs.as_slice(), "T") {
        match naive_datetime_parse(value, "%Y%m%dT%H%M%S") {
            Ok(t) => Ok(t),
            Err(e) => {
                let mut m = String::from_str("bad datetime '");
                m.append(value);
                m.append("': ");
                m.append(e.as_str());
                Err(CalDavError::IcsParseError(m))
            },
        }
    } else if value.len() == 8 {
        match naive_date_parse(value, "%Y%m%d") {
            Ok(t) => Ok(t),
            Err(e) => {
                let mut m = String::from_str("bad date '");
                m.append(value);
                m.append("': ");
                m.append(e.as_str());
                Err(CalDavError::IcsParseError(m))
            },
        }
    } else {
        let mut m = String::from_str("unrecognized datetime format: '");
        m.append(value);
        m.append("'");
        Err(CalDavError::IcsParseError(m))
    }
}

/// `s` with every trailing `Z` removed.
fn strip_trailing_z(s: &[char]) -> (r: Vec<char>)
    ensures
        r@ == strip_all_suffix(s@, "Z"@),
{
    proof {
        reveal_strlit("Z");
    }
    let mut n = s.len();
    assert(s@.subrange(0, n as int) =~= s@);
    while n > 0 && s[n - 1] == 'Z'
        invariant
            n <= s@.len(),
            strip_all_suffix(s@, "Z"@) == strip_all_suffix(s@.subrange(0, n as int), "Z"@),
        decreases n,
    {
        proof {
            reveal_strlit("Z");
        }
        let ghost t = s@.subrange(0, n as int);
        assert(t.subrange(t.len() - 1, t.len() as int) =~= "Z"@);
        assert(t.subrange(0, t.len() - 1) =~= s@.subrange(0, n - 1));
        n -= 1;
    }
    let ghost t = s@.subrange(0, n as int);
    assert(!ends_with(t, "Z"@)) by {
        if t.len() >= 1 {
            assert(t.subrange(t.len() - 1, t.len() as int)[0] == t[t.len() - 1]);
        }
    }
    sub_chars(s, 0, n)
}

/// Reads a DTSTART/DTEND value as an instant. Handles `20200101T120000Z`
/// (UTC), `20200101T120000` with a TZID (wall-clock time in that zone, looked
/// up in the TZID table first), and `20200101` (all-day, midnight); a value
/// without a usable zone is floating time, read as UTC.
pub fn parse_datetime(value: &str, tzid: Option<&str>, tz_map: &TzMap) -> (r: Result<
    i64,
    CalDavError,
>)
    ensures
        ts_result_view(r) == parsed_datetime(
            value@,
            match tzid {
                Some(t) => Some(t@),
                None => None,
            },
            tz_map@,
        ),
        r matches Ok(t) ==> ts_valid(t as int),
{
    let cs = chars_of(value);
    let trimmed = trim_chars(cs.as_slice());
    let v = string_from_chars(trimmed.as_slice());
    let vc = chars_of(v.as_str());
    let n = vc.len();
    proof {
        reveal_strlit("Z");
    }
    if n > 0 && vc[n - 1] == 'Z' {
        assert(ends_with(vc@, "Z"@)) by {
            assert(vc@.subrange(n - 1, n as int) =~= "Z"@);
        }
        let stripped = strip_trailing_z(vc.as_slice());
        let s = string_from_chars(stripped.as_slice());
        return parse_naive(s.as_str());
    }
    assert(!ends_with(vc@, "Z"@)) by {
        if vc@.len() >= 1 {
            assert(vc@.subrange(vc@.len() - 1, vc@.len() as int)[0] == vc@[vc@.len() - 1]);
        }
    }
    if let Some(id) = tzid {
        let resolved = resolve_timezone(id);
        let zone = match tz_map.get(id) {
            Some(z) => Some(z),
            None => resolved,
        };
        if let Some(z) = zone {
            let naive = parse_naive(v.as_str())?;
            return match local_to_utc(z.name(), naive) {
                Some(t) => Ok(t),
                None => {
                    let mut m = String::from_str("ambiguous local time: ");
                    m.append(v.as_str());
                    m.append(" in ");
                    m.append(id);
                    Err(CalDavError::IcsParseError(m))
                },
            };
        }
    }
    parse_naive(v.as_str())
}

// --- Writing date-times ---

/// The UTC text and the local text of an instant: the local text is the
/// wall-clock time in the zone followed by the zone's name, or the UTC text
/// when there is no zone.
pub open spec fn formatted(t: i64, zone: Option<Seq<char>>) -> (Seq<char>, Seq<char>) {
    let utc = spec_format_utc(t, "%Y-%m-%d %H:%M UTC"@);
    let local = match zone {
        Some(z) => spec_format_local(z, t, "%Y-%m-%d %H:%M"@) + " "@ + z,
        None => utc,
    };
    (utc, local)
}

/// Formats an instant both in UTC and in a zone.
pub fn format_datetime(dt: i64, tz: Option<&Tz>) -> (r: (String, String))
    requires
        ts_valid(dt as int),
    ensures
        (r.0@, r.1@) == formatted(
            dt,
            match tz {
                Some(z) => Some(z@),
                None => None,
            },
        ),
{
    let utc_str = format_utc(dt, "%Y-%m-%d %H:%M UTC");
    let local_str = match tz {
        Some(z) => {
            let local = format_local(z.name(), dt, "%Y-%m-%d %H:%M");
            let mut s = local;
            s.append(" ");
            s.append(z.name());
            s
        },
        None => utc_str.clone(),
    };
    (utc_str, local_str)
}

} // verus!

verus! {

/// Every insertion of the TZID table pairs a TZID with the zone it resolves to.
proof fn lemma_tz_scan_resolves(lines: Seq<Seq<char>>, in_tz: bool)
    ensures
        forall|i: int|
            0 <= i < tz_scan(lines, in_tz).len() ==> resolved_tz(#[trigger] tz_scan(
                lines,
                in_tz,
            )[i].0) == Some(tz_scan(lines, in_tz)[i].1),
    decreases lines.len(),
{
    if lines.len() > 0 {
        let l = lines[0];
        let rest = lines.drop_first();
        lemma_tz_scan_resolves(rest, true);
        lemma_tz_scan_resolves(rest, false);
        if l != "BEGIN:VTIMEZONE"@ && l != "END:VTIMEZONE"@ && in_tz && starts_with(l, "TZID:"@) {
            match resolved_tz(tzid_of_line(l)) {
                Some(n) => {
                    let s = seq![(tzid_of_line(l), n)] + tz_scan(rest, true);
                    assert forall|i: int| 0 <= i < s.len() implies resolved_tz(#[trigger] s[i].0)
                        == Some(s[i].1) by {
                        if i > 0 {
                            assert(s[i] == tz_scan(rest, true)[i - 1]);
                        }
                    }
                },
                None => {},
            }
        }
    }
}

/// A map built from insertions that each pair a TZID with its resolved zone
/// answers every TZID it holds with that zone.
proof fn lemma_map_of_resolves(pairs: Seq<(Seq<char>, Seq<char>)>)
    requires
        forall|i: int| 0 <= i < pairs.len() ==> resolved_tz(#[trigger] pairs[i].0) == Some(pairs[i].1),
    ensures
        forall|k: Seq<char>| #[trigger] map_of(pairs).contains_key(k) ==> resolved_tz(k) == Some(
            map_of(pairs)[k],
        ),
    decreases pairs.len(),
{
    if pairs.len() > 0 {
        let init = pairs.drop_last();
        assert forall|i: int| 0 <= i < init.len() implies resolved_tz(#[trigger] init[i].0) == Some(
            init[i].1,
        ) by {
            assert(init[i] == pairs[i]);
        }
        lemma_map_of_resolves(init);
        let last = pairs[pairs.len() - 1];
        assert(resolved_tz(last.0) == Some(last.1));
        assert(map_of(pairs) == map_of(init).insert(last.0, last.1));
        assert forall|k: Seq<char>| #[trigger] map_of(pairs).contains_key(k) implies resolved_tz(k)
            == Some(map_of(pairs)[k]) by {
            if k != last.0 {
                assert(map_of(init).contains_key(k));
            }
        }
    }
}

/// Law: the zone of a TZID does not depend on the other VTIMEZONE blocks of
/// the text: looking it up in the TZID table of any ICS text (and resolving
/// it when the table lacks it) gives the zone the TZID itself resolves to.
pub proof fn law_zone_of_tzid_is_its_resolution(ics: Seq<char>, tzid: Seq<char>)
    ensures
        zone_of(tz_map_of(ics), tzid) == resolved_tz(tzid),
{
    lemma_tz_scan_resolves(clean_lines_of(ics), false);
    lemma_map_of_resolves(tz_scan(clean_lines_of(ics), false));
    if tz_map_of(ics).contains_key(tzid) {
    }
}

/// A TZID that is not an IANA zone name, but a Windows or legacy alias of
/// one, stands for that zone.
pub open spec fn alias_resolves_to(alias: Seq<char>, iana: Seq<char>) -> bool {
    spec_tz_parse(alias) is None ==> resolved_tz(alias) == spec_tz_parse(iana)
}

/// A name that does not start with `/` carries no vendor prefix.
proof fn lemma_no_vendor_prefix(s: Seq<char>)
    requires
        s.len() > 0,
        s[0] != '/',
    ensures
        strip_vendor_prefixes(s) == s,
{
    reveal_strlit("/mozilla.org/20050126_1/");
    reveal_strlit("/citadel.org/20190914_1/");
    reveal_strlit("/softwarestudio.org/Olson_20011030_5/");
    assert(!starts_with(s, "/mozilla.org/20050126_1/"@)) by {
        if starts_with(s, "/mozilla.org/20050126_1/"@) {
            assert(s.subrange(0, 24)[0] == s[0]);
        }
    }
    assert(!starts_with(s, "/citadel.org/20190914_1/"@)) by {
        if starts_with(s, "/citadel.org/20190914_1/"@) {
            assert(s.subrange(0, 24)[0] == s[0]);
        }
    }
    assert(!starts_with(s, "/softwarestudio.org/Olson_20011030_5/"@)) by {
        if starts_with(s, "/softwarestudio.org/Olson_20011030_5/"@) {
            assert(s.subrange(0, 37)[0] == s[0]);
        }
    }
}

/// Law: each Windows or legacy alias that the zone library does not know
/// itself resolves to the IANA zone it names: the Eastern, Central,
/// Mountain and Pacific names to New York, Chicago, Denver and Los Angeles,
/// GMT to Etc/GMT, UTC to Etc/UTC, and the European, Japanese, Chinese and
/// Australian names to Berlin, Paris, London, Tokyo, Shanghai and Sydney.
#[verifier::spinoff_prover]
pub proof fn law_windows_aliases_resolve()
    ensures
        alias_resolves_to("Eastern Standard Time"@, "America/New_York"@),
        alias_resolves_to("Eastern Daylight Time"@, "America/New_York"@),
        alias_resolves_to("US/Eastern"@, "America/New_York"@),
        alias_resolves_to("Central Standard Time"@, "America/Chicago"@),
        alias_resolves_to("Central Daylight Time"@, "America/Chicago"@),
        alias_resolves_to("US/Central"@, "America/Chicago"@),
        alias_resolves_to("Mountain Standard Time"@, "America/Denver"@),
        alias_resolves_to("Mountain Daylight Time"@, "America/Denver"@),
        alias_resolves_to("US/Mountain"@, "America/Denver"@),
        alias_resolves_to("Pacific Standard Time"@, "America/Los_Angeles"@),
        alias_resolves_to("Pacific Daylight Time"@, "America/Los_Angeles"@),
        alias_resolves_to("US/Pacific"@, "America/Los_Angeles"@),
        alias_resolves_to("GMT"@, "Etc/GMT"@),
        alias_resolves_to("Greenwich Mean Time"@, "Etc/GMT"@),
        alias_resolves_to("UTC"@, "Etc/UTC"@),
        alias_resolves_to("W. Europe Standard Time"@, "Europe/Berlin"@),
        alias_resolves_to("Romance Standard Time"@, "Europe/Paris"@),
        alias_resolves_to("GMT Standard Time"@, "Europe/London"@),
        alias_resolves_to("Tokyo Standard Time"@, "Asia/Tokyo"@),
        alias_resolves_to("China Standard Time"@, "Asia/Shanghai"@),
        alias_resolves_to("AUS Eastern Standard Time"@, "Australia/Sydney"@),
{
    assert(alias_resolves_to("Eastern Standard Time"@, "America/New_York"@)) by {
        reveal_strlit("Eastern Standard Time");
        lemma_no_vendor_prefix("Eastern Standard Time"@);
    }
    assert(alias_resolves_to("Eastern Daylight Time"@, "America/New_York"@)) by {
        reveal_strlit("Eastern Daylight Time");
        reveal_strlit("Eastern Standard Time");
        assert("Eastern Daylight Time"@[8] != "Eastern Standard Time"@[8]);
        lemma_no_vendor_prefix("Eastern Daylight Time"@);
    }
    assert(alias_resolves_to("US/Eastern"@, "America/New_York"@)) by {
        reveal_strlit("US/Eastern");
        reveal_strlit("Eastern Standard Time");
        reveal_strlit("Eastern Daylight Time");
        lemma_no_vendor_prefix("US/Eastern"@);
    }
    assert(alias_resolves_to("Central Standard Time"@, "America/Chicago"@)) by {
        reveal_strlit("Central Standard Time");
        reveal_strlit("Eastern Standard Time");
        assert("Central Standard Time"@[0] != "Eastern Standard Time"@[0]);
        reveal_strlit("Eastern Daylight Time");
        assert("Central Standard Time"@[0] != "Eastern Daylight Time"@[0]);
        reveal_strlit("US/Eastern");
        lemma_no_vendor_prefix("Central Standard Time"@);
    }
    assert(alias_resolves_to("Central Daylight Time"@, "America/Chicago"@)) by {
        reveal_strlit("Central Daylight Time");
        reveal_strlit("Eastern Standard Time");
        assert("Central Daylight Time"@[0] != "Eastern Standard Time"@[0]);
        reveal_strlit("Eastern Daylight Time");
        assert("Central Daylight Time"@[0] != "Eastern Daylight Time"@[0]);
        reveal_strlit("US/Eastern");
        reveal_strlit("Central Standard Time");
        assert("Central Daylight Time"@[8] != "Central Standard Time"@[8]);
        lemma_no_vendor_prefix("Central Daylight Time"@);
    }
    assert(alias_resolves_to("US/Central"@, "America/Chicago"@)) by {
        reveal_strlit("US/Central");
        reveal_strlit("Eastern Standard Time");
        reveal_strlit("Eastern Daylight Time");
        reveal_strlit("US/Eastern");
        assert("US/Central"@[3] != "US/Eastern"@[3]);
        reveal_strlit("Central Standard Time");
        reveal_strlit("Central Daylight Time");
        lemma_no_vendor_prefix("US/Central"@);
    }
    assert(alias_resolves_to("Mountain Standard Time"@, "America/Denver"@)) by {
        reveal_strlit("Mountain Standard Time");
        reveal_strlit("Eastern Standard Time");
        reveal_strlit("Eastern Daylight Time");
        reveal_strlit("US/Eastern");
        reveal_strlit("Central Standard Time");
        reveal_strlit("Central Daylight Time");
        reveal_strlit("US/Central");
        lemma_no_vendor_prefix("Mountain Standard Time"@);
    }
    assert(alias_resolves_to("Mountain Daylight Time"@, "America/Denver"@)) by {
        reveal_strlit("Mountain Daylight Time");
        reveal_strlit("Eastern Standard Time");
        reveal_strlit("Eastern Daylight Time");
        reveal_strlit("US/Eastern");
        reveal_strlit("Central Standard Time");
        reveal_strlit("Central Daylight Time");
        reveal_strlit("US/Central");
        reveal_strlit("Mountain Standard Time");
        assert("Mountain Daylight Time"@[9] != "Mountain Standard Time"@[9]);
        lemma_no_vendor_prefix("Mountain Daylight Time"@);
    }
    assert(alias_resolves_to("US/Mountain"@, "America/Denver"@)) by {
        reveal_strlit("US/Mountain");
        reveal_strlit("Eastern Standard Time");
        reveal_strlit("Eastern Daylight Time");
        reveal_strlit("US/Eastern");
        reveal_strlit("Central Standard Time");
        reveal_strlit("Central Daylight Time");
        reveal_strlit("US/Central");
        reveal_strlit("Mountain Standard Time");
        reveal_strlit("Mountain Daylight Time");
        lemma_no_vendor_prefix("US/Mountain"@);
    }
    assert(alias_resolves_to("Pacific Standard Time"@, "America/Los_Angeles"@)) by {
        reveal_strlit("Pacific Standard Time");
        reveal_strlit("Eastern Standard Time");
        assert("Pacific Standard Time"@[0] != "Eastern Standard Time"@[0]);
        reveal_strlit("Eastern Daylight Time");
        assert("Pacific Standard Time"@[0] != "Eastern Daylight Time"@[0]);
        reveal_strlit("US/Eastern");
        reveal_strlit("Central Standard Time");
        assert("Pacific Standard Time"@[0] != "Central Standard Time"@[0]);
        reveal_strlit("Central Daylight Time");
        assert("Pacific Standard Time"@[0] != "Central Daylight Time"@[0]);
        reveal_strlit("US/Central");
        reveal_strlit("Mountain Standard Time");
        reveal_strlit("Mountain Daylight Time");
        reveal_strlit("US/Mountain");
        lemma_no_vendor_prefix("Pacific Standard Time"@);
    }
    assert(alias_resolves_to("Pacific Daylight Time"@, "America/Los_Angeles"@)) by {
        reveal_strlit("Pacific Daylight Time");
        reveal_strlit("Eastern Standard Time");
        assert("Pacific Daylight Time"@[0] != "Eastern Standard Time"@[0]);
        reveal_strlit("Eastern Daylight Time");
        assert("Pacific Daylight Time"@[0] != "Eastern Daylight Time"@[0]);
        reveal_strlit("US/Eastern");
        reveal_strlit("Central Standard Time");
        assert("Pacific Daylight Time"@[0] != "Central Standard Time"@[0]);
        reveal_strlit("Central Daylight Time");
        assert("Pacific Daylight Time"@[0] != "Central Daylight Time"@[0]);
        reveal_strlit("US/Central");
        reveal_strlit("Mountain Standard Time");
        reveal_strlit("Mountain Daylight Time");
        reveal_strlit("US/Mountain");
        reveal_strlit("Pacific Standard Time");
        assert("Pacific Daylight Time"@[8] != "Pacific Standard Time"@[8]);
        lemma_no_vendor_prefix("Pacific Daylight Time"@);
    }
    assert(alias_resolves_to("US/Pacific"@, "America/Los_Angeles"@)) by {
        reveal_strlit("US/Pacific");
        reveal_strlit("Eastern Standard Time");
        reveal_strlit("Eastern Daylight Time");
        reveal_strlit("US/Eastern");
        assert("US/Pacific"@[3] != "US/Eastern"@[3]);
        reveal_strlit("Central Standard Time");
        reveal_strlit("Central Daylight Time");
        reveal_strlit("US/Central");
        assert("US/Pacific"@[3] != "US/Central"@[3]);
        reveal_strlit("Mountain Standard Time");
        reveal_strlit("Mountain Daylight Time");
        reveal_strlit("US/Mountain");
        reveal_strlit("Pacific Standard Time");
        reveal_strlit("Pacific Daylight Time");
        lemma_no_vendor_prefix("US/Pacific"@);
    }
    assert(alias_resolves_to("GMT"@, "Etc/GMT"@)) by {
        reveal_strlit("GMT");
        reveal_strlit("Eastern Standard Time");
        reveal_strlit("Eastern Daylight Time");
        reveal_strlit("US/Eastern");
        reveal_strlit("Central Standard Time");
        reveal_strlit("Central Daylight Time");
        reveal_strlit("US/Central");
        reveal_strlit("Mountain Standard Time");
        reveal_strlit("Mountain Daylight Time");
        reveal_strlit("US/Mountain");
        reveal_strlit("Pacific Standard Time");
        reveal_strlit("Pacific Daylight Time");
        reveal_strlit("US/Pacific");
        lemma_no_vendor_prefix("GMT"@);
    }
    assert(alias_resolves_to("Greenwich Mean Time"@, "Etc/GMT"@)) by {
        reveal_strlit("Greenwich Mean Time");
        reveal_strlit("Eastern Standard Time");
        reveal_strlit("Eastern Daylight Time");
        reveal_strlit("US/Eastern");
        reveal_strlit("Central Standard Time");
        reveal_strlit("Central Daylight Time");
        reveal_strlit("US/Central");
        reveal_strlit("Mountain Standard Time");
        reveal_strlit("Mountain Daylight Time");
        reveal_strlit("US/Mountain");
        reveal_strlit("Pacific Standard Time");
        reveal_strlit("Pacific Daylight Time");
        reveal_strlit("US/Pacific");
        reveal_strlit("GMT");
        lemma_no_vendor_prefix("Greenwich Mean Time"@);
    }
    assert(alias_resolves_to("UTC"@, "Etc/UTC"@)) by {
        reveal_strlit("UTC");
        reveal_strlit("Eastern Standard Time");
        reveal_strlit("Eastern Daylight Time");
        reveal_strlit("US/Eastern");
        reveal_strlit("Central Standard Time");
        reveal_strlit("Central Daylight Time");
        reveal_strlit("US/Central");
        reveal_strlit("Mountain Standard Time");
        reveal_strlit("Mountain Daylight Time");
        reveal_strlit("US/Mountain");
        reveal_strlit("Pacific Standard Time");
        reveal_strlit("Pacific Daylight Time");
        reveal_strlit("US/Pacific");
        reveal_strlit("GMT");
        assert("UTC"@[0] != "GMT"@[0]);
        reveal_strlit("Greenwich Mean Time");
        lemma_no_vendor_prefix("UTC"@);
    }
    assert(alias_resolves_to("W. Europe Standard Time"@, "Europe/Berlin"@)) by {
        reveal_strlit("W. Europe Standard Time");
        reveal_strlit("Eastern Standard Time");
        reveal_strlit("Eastern Daylight Time");
        reveal_strlit("US/Eastern");
        reveal_strlit("Central Standard Time");
        reveal_strlit("Central Daylight Time");
        reveal_strlit("US/Central");
        reveal_strlit("Mountain Standard Time");
        reveal_strlit("Mountain Daylight Time");
        reveal_strlit("US/Mountain");
        reveal_strlit("Pacific Standard Time");
        reveal_strlit("Pacific Daylight Time");
        reveal_strlit("US/Pacific");
        reveal_strlit("GMT");
        reveal_strlit("Greenwich Mean Time");
        reveal_strlit("UTC");
        lemma_no_vendor_prefix("W. Europe Standard Time"@);
    }
    assert(alias_resolves_to("Romance Standard Time"@, "Europe/Paris"@)) by {
        reveal_strlit("Romance Standard Time");
        reveal_strlit("Eastern Standard Time");
        assert("Romance Standard Time"@[0] != "Eastern Standard Time"@[0]);
        reveal_strlit("Eastern Daylight Time");
        assert("Romance Standard Time"@[0] != "Eastern Daylight Time"@[0]);
        reveal_strlit("US/Eastern");
        reveal_strlit("Central Standard Time");
        assert("Romance Standard Time"@[0] != "Central Standard Time"@[0]);
        reveal_strlit("Central Daylight Time");
        assert("Romance Standard Time"@[0] != "Central Daylight Time"@[0]);
        reveal_strlit("US/Central");
        reveal_strlit("Mountain Standard Time");
        reveal_strlit("Mountain Daylight Time");
        reveal_strlit("US/Mountain");
        reveal_strlit("Pacific Standard Time");
        assert("Romance Standard Time"@[0] != "Pacific Standard Time"@[0]);
        reveal_strlit("Pacific Daylight Time");
        assert("Romance Standard Time"@[0] != "Pacific Daylight Time"@[0]);
        reveal_strlit("US/Pacific");
        reveal_strlit("GMT");
        reveal_strlit("Greenwich Mean Time");
        reveal_strlit("UTC");
        reveal_strlit("W. Europe Standard Time");
        lemma_no_vendor_prefix("Romance Standard Time"@);
    }
    assert(alias_resolves_to("GMT Standard Time"@, "Europe/London"@)) by {
        reveal_strlit("GMT Standard Time");
        reveal_strlit("Eastern Standard Time");
        reveal_strlit("Eastern Daylight Time");
        reveal_strlit("US/Eastern");
        reveal_strlit("Central Standard Time");
        reveal_strlit("Central Daylight Time");
        reveal_strlit("US/Central");
        reveal_strlit("Mountain Standard Time");
        reveal_strlit("Mountain Daylight Time");
        reveal_strlit("US/Mountain");
        reveal_strlit("Pacific Standard Time");
        reveal_strlit("Pacific Daylight Time");
        reveal_strlit("US/Pacific");
        reveal_strlit("GMT");
        reveal_strlit("Greenwich Mean Time");
        reveal_strlit("UTC");
        reveal_strlit("W. Europe Standard Time");
        reveal_strlit("Romance Standard Time");
        lemma_no_vendor_prefix("GMT Standard Time"@);
    }
    assert(alias_resolves_to("Tokyo Standard Time"@, "Asia/Tokyo"@)) by {
        reveal_strlit("Tokyo Standard Time");
        reveal_strlit("Eastern Standard Time");
        reveal_strlit("Eastern Daylight Time");
        reveal_strlit("US/Eastern");
        reveal_strlit("Central Standard Time");
        reveal_strlit("Central Daylight Time");
        reveal_strlit("US/Central");
        reveal_strlit("Mountain Standard Time");
        reveal_strlit("Mountain Daylight Time");
        reveal_strlit("US/Mountain");
        reveal_strlit("Pacific Standard Time");
        reveal_strlit("Pacific Daylight Time");
        reveal_strlit("US/Pacific");
        reveal_strlit("GMT");
        reveal_strlit("Greenwich Mean Time");
        assert("Tokyo Standard Time"@[0] != "Greenwich Mean Time"@[0]);
        reveal_strlit("UTC");
        reveal_strlit("W. Europe Standard Time");
        reveal_strlit("Romance Standard Time");
        reveal_strlit("GMT Standard Time");
        lemma_no_vendor_prefix("Tokyo Standard Time"@);
    }
    assert(alias_resolves_to("China Standard Time"@, "Asia/Shanghai"@)) by {
        reveal_strlit("China Standard Time");
        reveal_strlit("Eastern Standard Time");
        reveal_strlit("Eastern Daylight Time");
        reveal_strlit("US/Eastern");
        reveal_strlit("Central Standard Time");
        reveal_strlit("Central Daylight Time");
        reveal_strlit("US/Central");
        reveal_strlit("Mountain Standard Time");
        reveal_strlit("Mountain Daylight Time");
        reveal_strlit("US/Mountain");
        reveal_strlit("Pacific Standard Time");
        reveal_strlit("Pacific Daylight Time");
        reveal_strlit("US/Pacific");
        reveal_strlit("GMT");
        reveal_strlit("Greenwich Mean Time");
        assert("China Standard Time"@[0] != "Greenwich Mean Time"@[0]);
        reveal_strlit("UTC");
        reveal_strlit("W. Europe Standard Time");
        reveal_strlit("Romance Standard Time");
        reveal_strlit("GMT Standard Time");
        reveal_strlit("Tokyo Standard Time");
        assert("China Standard Time"@[0] != "Tokyo Standard Time"@[0]);
        lemma_no_vendor_prefix("China Standard Time"@);
    }
    assert(alias_resolves_to("AUS Eastern Standard Time"@, "Australia/Sydney"@)) by {
        reveal_strlit("AUS Eastern Standard Time");
        reveal_strlit("Eastern Standard Time");
        reveal_strlit("Eastern Daylight Time");
        reveal_strlit("US/Eastern");
        reveal_strlit("Central Standard Time");
        reveal_strlit("Central Daylight Time");
        reveal_strlit("US/Central");
        reveal_strlit("Mountain Standard Time");
        reveal_strlit("Mountain Daylight Time");
        reveal_strlit("US/Mountain");
        reveal_strlit("Pacific Standard Time");
        reveal_strlit("Pacific Daylight Time");
        reveal_strlit("US/Pacific");
        reveal_strlit("GMT");
        reveal_strlit("Greenwich Mean Time");
        reveal_strlit("UTC");
        reveal_strlit("W. Europe Standard Time");
        reveal_strlit("Romance Standard Time");
        reveal_strlit("GMT Standard Time");
        reveal_strlit("Tokyo Standard Time");
        reveal_strlit("China Standard Time");
        lemma_no_vendor_prefix("AUS Eastern Standard Time"@);
    }
}

} // verus!
