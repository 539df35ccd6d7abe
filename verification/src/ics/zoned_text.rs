//! Recurrence text in which every date-time carries its zone.
//!
//! The recurrence expander reads a date-time that has neither a `Z` suffix
//! nor a TZID in the zone of the machine it runs on. The lines handed to it
//! are therefore checked (and EXDATE/RDATE lines rewritten) so that every
//! date-time they hold is in UTC or in a named zone.
use vstd::prelude::*;

use crate::text::{
    chars_of, find_from, occurs_at, find_lit_from, starts_with, starts_with_lit, string_from_chars, sub_chars,
};

verus! {

/// A text with no line break (`\n` or `\r`) in it.
pub open spec fn no_breaks(s: Seq<char>) -> bool {
    forall|i: int| 0 <= i < s.len() ==> #[trigger] s[i] != '\n' && s[i] != '\r'
}

/// A text made of ASCII characters only.
pub open spec fn all_ascii(s: Seq<char>) -> bool {
    forall|i: int| 0 <= i < s.len() ==> ((#[trigger] s[i]) as u32) < 128
}

/// `c` is `u`, ignoring the case of ASCII letters (`u` upper-case).
pub open spec fn char_ci(c: char, u: char) -> bool {
    c == u || ('A' <= u <= 'Z' && c as u32 == u as u32 + 32)
}

/// The text `lit` (upper-case) occurs at position `i` of `s`, ignoring the
/// case of ASCII letters.
pub open spec fn ci_at(s: Seq<char>, i: int, lit: Seq<char>) -> bool {
    0 <= i && i + lit.len() <= s.len() && forall|k: int|
        0 <= k < lit.len() ==> char_ci(s[i + k], #[trigger] lit[k])
}

/// The value of a `;`-separated part that starts at `j` (up to the next
/// `;` or the end) is empty or ends with `Z`.
pub open spec fn part_value_zulu(v: Seq<char>, j: int) -> bool
    decreases v.len() - j,
{
    if j < 0 || j >= v.len() {
        true
    } else if v[j] == ';' {
        true
    } else if j + 1 == v.len() || v[j + 1] == ';' {
        v[j] == 'Z'
    } else {
        part_value_zulu(v, j + 1)
    }
}

/// A `;`-separated part of a rule starts at `i` with the key `UNTIL`.
pub open spec fn until_at(v: Seq<char>, i: int) -> bool {
    (i == 0 || (i >= 1 && v[i - 1] == ';')) && ci_at(v, i, "UNTIL="@)
}

/// Every `UNTIL` of a rule's parts is empty or in UTC.
pub open spec fn until_values_zulu(v: Seq<char>) -> bool {
    forall|i: int| #[trigger] until_at(v, i) ==> part_value_zulu(v, i + 6)
}

/// An RRULE line whose UNTIL, if any, is in UTC. The line is ASCII, so a
/// key reads as `UNTIL` exactly when it matches it ignoring ASCII case.
pub open spec fn safe_rule_line(r: Seq<char>) -> bool {
    &&& starts_with(r, "RRULE:"@)
    &&& no_breaks(r)
    &&& all_ascii(r)
    &&& until_values_zulu(r.subrange(6, r.len() as int))
}

/// Every `,`-separated value is empty or ends with `Z`.
pub open spec fn values_zulu(v: Seq<char>) -> bool {
    forall|i: int|
        0 <= i < v.len() && (i + 1 == v.len() || v[i + 1] == ',') ==> #[trigger] v[i] == 'Z'
            || v[i] == ','
}

/// The position of the first `:` of a line.
pub open spec fn first_colon(l: Seq<char>) -> Option<int> {
    find_from(l, ":"@, 0)
}

/// A `;`-separated parameter of a line starts at `i` with the key `TZID`,
/// before the line's first `:`.
pub open spec fn tzid_at(l: Seq<char>, i: int) -> bool {
    &&& 1 <= i <= l.len()
    &&& l[i - 1] == ';'
    &&& ci_at(l, i, "TZID="@)
    &&& match first_colon(l) {
        Some(c) => i + 5 <= c,
        None => false,
    }
}

/// An EXDATE or RDATE line with parameters, one of them a TZID.
pub open spec fn has_tzid_param(l: Seq<char>) -> bool {
    &&& (starts_with(l, "EXDATE;"@) || starts_with(l, "RDATE;"@))
    &&& exists|i: int| #[trigger] tzid_at(l, i)
}

/// A line named EXDATE or RDATE, followed by its parameters or its values.
pub open spec fn dated_name(l: Seq<char>) -> bool {
    ||| starts_with(l, "EXDATE:"@)
    ||| starts_with(l, "EXDATE;"@)
    ||| starts_with(l, "RDATE:"@)
    ||| starts_with(l, "RDATE;"@)
}

/// An EXDATE or RDATE line whose dates are read in a named zone (it has a
/// TZID parameter) or in UTC (every value ends with `Z`).
pub open spec fn safe_extra_line(l: Seq<char>) -> bool {
    &&& no_breaks(l)
    &&& dated_name(l)
    &&& (has_tzid_param(l) || match first_colon(l) {
        Some(c) => values_zulu(l.subrange(c + 1, l.len() as int)),
        None => false,
    })
}

/// A DTSTART line in a named zone, or in UTC.
pub open spec fn safe_dtstart_line(d: Seq<char>) -> bool {
    &&& no_breaks(d)
    &&& (starts_with(d, "DTSTART;TZID="@) || (starts_with(d, "DTSTART:"@) && d.len() > 8 && d.last()
        == 'Z'))
}

/// Each line preceded by a line feed.
pub open spec fn extra_text(lines: Seq<Seq<char>>) -> Seq<char>
    decreases lines.len(),
{
    if lines.len() == 0 {
        Seq::empty()
    } else {
        extra_text(lines.drop_last()) + "\n"@ + lines.last()
    }
}

/// A recurrence text made of a DTSTART line, an RRULE line and EXDATE/RDATE
/// lines, none of them holding a date-time without a zone.
pub open spec fn zoned_recurrence_text(s: Seq<char>) -> bool {
    exists|d: Seq<char>, r: Seq<char>, xs: Seq<Seq<char>>|
        #![trigger safe_dtstart_line(d), safe_rule_line(r), extra_text(xs)]
        s == d + "\n"@ + r + extra_text(xs) && safe_dtstart_line(d) && safe_rule_line(r) && forall|
            i: int,
        | 0 <= i < xs.len() ==> safe_extra_line(#[trigger] xs[i])
}

// --- Rewriting EXDATE/RDATE values into UTC ---

/// A value of an EXDATE/RDATE line read in UTC: a date becomes its midnight
/// in UTC, a date-time gets a `Z`; an empty value or one in UTC stays.
pub open spec fn zulu_value(p: Seq<char>) -> Seq<char> {
    if p.len() == 0 || p.last() == 'Z' {
        p
    } else if p.len() == 8 {
        p + "T000000Z"@
    } else {
        p + "Z"@
    }
}

/// The `,`-separated values of `v`, each read in UTC, with `part` the
/// value read so far.
pub open spec fn zulu_values_scan(v: Seq<char>, part: Seq<char>) -> Seq<char>
    decreases v.len(),
{
    if v.len() == 0 {
        zulu_value(part)
    } else if v[0] == ',' {
        zulu_value(part) + ","@ + zulu_values_scan(v.drop_first(), Seq::empty())
    } else {
        zulu_values_scan(v.drop_first(), part.push(v[0]))
    }
}

/// The `,`-separated values of `v`, each read in UTC.
pub open spec fn zulu_values(v: Seq<char>) -> Seq<char> {
    zulu_values_scan(v, Seq::empty())
}

/// An EXDATE/RDATE line as the expander gets it: unchanged when it has a
/// TZID parameter (or is not such a line), else with its values read in UTC.
pub open spec fn zoned_extra_line(l: Seq<char>) -> Seq<char> {
    if has_tzid_param(l) || !dated_name(l) {
        l
    } else {
        match first_colon(l) {
            Some(c) => l.subrange(0, c + 1) + zulu_values(l.subrange(c + 1, l.len() as int)),
            None => l,
        }
    }
}

// --- Checks ---

/// Whether the text has no line break.
pub fn no_breaks_check(a: &[char]) -> (r: bool)
    ensures
        r == no_breaks(a@),
{
    let mut i: usize = 0;
    while i < a.len()
        invariant
            0 <= i <= a@.len(),
            forall|k: int| 0 <= k < i ==> #[trigger] a@[k] != '\n' && a@[k] != '\r',
        decreases a@.len() - i,
    {
        if a[i] == '\n' || a[i] == '\r' {
            assert(!(a@[i as int] != '\n' && a@[i as int] != '\r'));
            return false;
        }
        i += 1;
    }
    true
}

/// Whether the text is ASCII.
fn all_ascii_check(a: &[char]) -> (r: bool)
    ensures
        r == all_ascii(a@),
{
    let mut i: usize = 0;
    while i < a.len()
        invariant
            0 <= i <= a@.len(),
            forall|k: int| 0 <= k < i ==> ((#[trigger] a@[k]) as u32) < 128,
        decreases a@.len() - i,
    {
        if (a[i] as u32) >= 128 {
            assert(!(((a@[i as int]) as u32) < 128));
            return false;
        }
        i += 1;
    }
    true
}

/// Whether `lit` occurs at `i`, ignoring ASCII case.
fn ci_at_check(a: &[char], i: usize, lit: &str) -> (r: bool)
    ensures
        r == ci_at(a@, i as int, lit@),
{
    let lc = chars_of(lit);
    let n = a.len();
    if i > n || lc.len() > n - i {
        return false;
    }
    let mut k: usize = 0;
    while k < lc.len()
        invariant
            lc@ == lit@,
            n == a@.len(),
            i + lc@.len() <= n,
            0 <= k <= lc@.len(),
            forall|m: int| 0 <= m < k ==> char_ci(a@[i + m], #[trigger] lit@[m]),
        decreases lc@.len() - k,
    {
        let c = a[i + k];
        let u = lc[k];
        let same = c == u || ('A' <= u && u <= 'Z' && (c as u32) == (u as u32) + 32);
        if !same {
            assert(!char_ci(a@[i + k], lit@[k as int]));
            return false;
        }
        k += 1;
    }
    true
}

/// Whether the part value starting at `j` is empty or ends with `Z`.
fn part_value_zulu_check(v: &[char], j: usize) -> (r: bool)
    ensures
        r == part_value_zulu(v@, j as int),
{
    let mut m = j;
    while m < v.len()
        invariant
            j <= m,
            part_value_zulu(v@, j as int) == part_value_zulu(v@, m as int),
        decreases v@.len() - m,
    {
        if v[m] == ';' {
            return true;
        }
        if m + 1 == v.len() || v[m + 1] == ';' {
            return v[m] == 'Z';
        }
        m += 1;
    }
    true
}

/// Whether every UNTIL of a rule's parts is empty or in UTC.
fn until_values_zulu_check(v: &[char]) -> (r: bool)
    ensures
        r == until_values_zulu(v@),
{
    let mut i: usize = 0;
    while i < v.len()
        invariant
            0 <= i <= v@.len(),
            forall|k: int| 0 <= k < i && #[trigger] until_at(v@, k) ==> part_value_zulu(v@, k + 6),
        decreases v@.len() - i,
    {
        let starts = i == 0 || v[i - 1] == ';';
        if starts && ci_at_check(v, i, "UNTIL=") {
            proof {
                reveal_strlit("UNTIL=");
            }
            assert(until_at(v@, i as int));
            if !part_value_zulu_check(v, i + 6) {
                return false;
            }
        } else {
            assert(!until_at(v@, i as int));
        }
        i += 1;
    }
    assert forall|k: int| #[trigger] until_at(v@, k) implies part_value_zulu(v@, k + 6) by {
        if k >= v@.len() {
            assert(!ci_at(v@, k, "UNTIL="@)) by {
                reveal_strlit("UNTIL=");
            }
        }
    }
    true
}

/// Whether every value is empty or ends with `Z`.
fn values_zulu_check(v: &[char]) -> (r: bool)
    ensures
        r == values_zulu(v@),
{
    let mut i: usize = 0;
    while i < v.len()
        invariant
            0 <= i <= v@.len(),
            forall|k: int|
                0 <= k < i && (k + 1 == v@.len() || v@[k + 1] == ',') ==> #[trigger] v@[k] == 'Z'
                    || v@[k] == ',',
        decreases v@.len() - i,
    {
        let ends = i + 1 == v.len() || v[i + 1] == ',';
        if ends && v[i] != 'Z' && v[i] != ',' {
            return false;
        }
        i += 1;
    }
    true
}

/// The position of the first `:` of a line.
fn first_colon_of(l: &[char]) -> (r: Option<usize>)
    ensures
        match r {
            Some(c) => first_colon(l@) == Some(c as int) && c < l@.len(),
            None => first_colon(l@) is None,
        },
{
    proof {
        reveal_strlit(":");
    }
    find_lit_from(l, ":", 0)
}

/// Whether an EXDATE/RDATE line has a TZID parameter.
fn has_tzid_param_check(l: &[char]) -> (r: bool)
    ensures
        r == has_tzid_param(l@),
{
    if !(starts_with_lit(l, "EXDATE;") || starts_with_lit(l, "RDATE;")) {
        return false;
    }
    let c = match first_colon_of(l) {
        Some(c) => c,
        None => {
            assert(forall|i: int| !tzid_at(l@, i));
            return false;
        },
    };
    let mut i: usize = 1;
    while i < c && c - i >= 5
        invariant
            1 <= i,
            c < l@.len(),
            starts_with(l@, "EXDATE;"@) || starts_with(l@, "RDATE;"@),
            first_colon(l@) == Some(c as int),
            forall|k: int| 1 <= k < i ==> !#[trigger] tzid_at(l@, k),
        decreases c - i,
    {
        if l[i - 1] == ';' && ci_at_check(l, i, "TZID=") {
            proof {
                reveal_strlit("TZID=");
            }
            assert(tzid_at(l@, i as int));
            return true;
        }
        proof {
            reveal_strlit("TZID=");
        }
        assert(!tzid_at(l@, i as int));
        i += 1;
    }
    assert forall|k: int| !#[trigger] tzid_at(l@, k) by {
        if k >= i && tzid_at(l@, k) {
            assert(k + 5 <= c);
        }
    }
    false
}

/// Whether a line is named EXDATE or RDATE.
fn dated_name_check(l: &[char]) -> (r: bool)
    ensures
        r == dated_name(l@),
{
    starts_with_lit(l, "EXDATE:") || starts_with_lit(l, "EXDATE;") || starts_with_lit(l, "RDATE:")
        || starts_with_lit(l, "RDATE;")
}

/// Whether an EXDATE/RDATE line holds no date-time without a zone.
pub fn safe_extra_line_check(l: &[char]) -> (r: bool)
    ensures
        r == safe_extra_line(l@),
{
    if !no_breaks_check(l) || !dated_name_check(l) {
        return false;
    }
    if has_tzid_param_check(l) {
        return true;
    }
    let n = l.len();
    match first_colon_of(l) {
        Some(c) => {
            let vals = sub_chars(l, c + 1, n);
            values_zulu_check(vals.as_slice())
        },
        None => false,
    }
}

/// Whether an RRULE line holds no UNTIL without a zone.
pub fn safe_rule_line_check(r: &[char]) -> (b: bool)
    ensures
        b == safe_rule_line(r@),
{
    if !starts_with_lit(r, "RRULE:") || !no_breaks_check(r) || !all_ascii_check(r) {
        return false;
    }
    proof {
        reveal_strlit("RRULE:");
    }
    let v = sub_chars(r, 6, r.len());
    until_values_zulu_check(v.as_slice())
}

/// Whether a DTSTART line is in a named zone or in UTC.
pub fn safe_dtstart_line_check(d: &[char]) -> (r: bool)
    ensures
        r == safe_dtstart_line(d@),
{
    if !no_breaks_check(d) {
        return false;
    }
    if starts_with_lit(d, "DTSTART;TZID=") {
        return true;
    }
    proof {
        reveal_strlit("DTSTART:");
    }
    starts_with_lit(d, "DTSTART:") && d.len() > 8 && d[d.len() - 1] == 'Z'
}

// --- Rewriting ---

/// Appends a value read in UTC.
fn push_zulu_value(out: &mut Vec<char>, part: &Vec<char>)
    ensures
        final(out)@ == old(out)@ + zulu_value(part@),
{
    let n = part.len();
    let mut k: usize = 0;
    while k < n
        invariant
            n == part@.len(),
            0 <= k <= n,
            out@ == old(out)@ + part@.subrange(0, k as int),
        decreases n - k,
    {
        out.push(part[k]);
        assert(part@.subrange(0, k + 1) =~= part@.subrange(0, k as int).push(part@[k as int]));
        k += 1;
    }
    assert(part@.subrange(0, n as int) =~= part@);
    if n == 0 || part[n - 1] == 'Z' {
        return;
    }
    let ghost before = out@;
    if n == 8 {
        let tail = chars_of("T000000Z");
        let mut k: usize = 0;
        while k < tail.len()
            invariant
                0 <= k <= tail@.len(),
                tail@ == "T000000Z"@,
                out@ == before + tail@.subrange(0, k as int),
            decreases tail@.len() - k,
        {
            out.push(tail[k]);
            assert(tail@.subrange(0, k + 1) =~= tail@.subrange(0, k as int).push(tail@[k as int]));
            k += 1;
        }
        assert(tail@.subrange(0, tail@.len() as int) =~= tail@);
    } else {
        out.push('Z');
        proof {
            reveal_strlit("Z");
        }
        assert(out@ =~= before + "Z"@);
    }
}

/// The `,`-separated values of a text, each read in UTC: a date becomes its
/// midnight in UTC and a date-time without a zone gets a `Z`.
pub fn zulu_values_of(v: &[char]) -> (r: Vec<char>)
    ensures
        r@ == zulu_values(v@),
{
    let mut out: Vec<char> = Vec::new();
    let mut part: Vec<char> = Vec::new();
    let mut i: usize = 0;
    assert(v@.skip(0) =~= v@);
    while i < v.len()
        invariant
            0 <= i <= v@.len(),
            out@ + zulu_values_scan(v@.skip(i as int), part@) == zulu_values(v@),
        decreases v@.len() - i,
    {
        let ghost rest = v@.skip(i as int);
        assert(rest.drop_first() =~= v@.skip(i + 1));
        assert(rest[0] == v@[i as int]);
        if v[i] == ',' {
            let ghost o = out@;
            let ghost p = part@;
            push_zulu_value(&mut out, &part);
            out.push(',');
            proof {
                reveal_strlit(",");
            }
            assert(out@ =~= o + zulu_value(p) + ","@);
            part = Vec::new();
            let ghost x = zulu_values_scan(v@.skip(i + 1), Seq::empty());
            assert(zulu_values_scan(rest, p) == zulu_value(p) + ","@ + x);
            assert(o + (zulu_value(p) + ","@ + x) =~= out@ + x);
            assert(part@ =~= Seq::<char>::empty());
        } else {
            let ghost p = part@;
            part.push(v[i]);
            assert(zulu_values_scan(rest, p) == zulu_values_scan(v@.skip(i + 1), p.push(v@[i as int])));
        }
        i += 1;
    }
    assert(v@.skip(v@.len() as int) =~= Seq::<char>::empty());
    push_zulu_value(&mut out, &part);
    out
}

/// An EXDATE/RDATE line as the expander gets it: kept when it has a TZID
/// parameter, else with each of its values read in UTC.
pub fn zoned_extra_line_of(line: &str) -> (r: String)
    ensures
        r@ == zoned_extra_line(line@),
{
    let l = chars_of(line);
    let n = l.len();
    if has_tzid_param_check(l.as_slice()) || !dated_name_check(l.as_slice()) {
        return string_from_chars(l.as_slice());
    }
    match first_colon_of(l.as_slice()) {
        Some(c) => {
            let mut head = sub_chars(l.as_slice(), 0, c + 1);
            let vals = sub_chars(l.as_slice(), c + 1, n);
            let mut z = zulu_values_of(vals.as_slice());
            head.append(&mut z);
            string_from_chars(head.as_slice())
        },
        None => string_from_chars(l.as_slice()),
    }
}

/// The first `:` at or after `i` is at `k` when none stands before it.
proof fn lemma_first_colon_at(s: Seq<char>, i: int, k: int)
    requires
        0 <= i <= k < s.len(),
        s[k] == ':',
        forall|j: int| i <= j < k ==> #[trigger] s[j] != ':',
    ensures
        find_from(s, ":"@, i) == Some(k),
    decreases k - i,
{
    reveal_strlit(":");
    if i < k {
        assert(!occurs_at(s, ":"@, i)) by {
            if occurs_at(s, ":"@, i) {
                assert(s.subrange(i, i + 1)[0] == s[i]);
            }
        }
        lemma_first_colon_at(s, i + 1, k);
    } else {
        assert(s.subrange(k, k + 1) =~= ":"@);
    }
}

/// Law: an EXDATE or RDATE line with a TZID parameter is read in that
/// zone: `NAME;TZID=zone:values` (a zone without `:`, no line break) is a
/// zoned line, and it reaches the expander exactly as it was written.
pub proof fn law_tzid_lines_are_zoned(name: Seq<char>, zone: Seq<char>, values: Seq<char>)
    requires
        name == "EXDATE"@ || name == "RDATE"@,
        no_breaks(zone),
        no_breaks(values),
        forall|j: int| 0 <= j < zone.len() ==> #[trigger] zone[j] != ':',
    ensures
        safe_extra_line(name + ";TZID="@ + zone + ":"@ + values),
        zoned_extra_line(name + ";TZID="@ + zone + ":"@ + values) == name + ";TZID="@ + zone
            + ":"@ + values,
{
    reveal_strlit("EXDATE");
    reveal_strlit("RDATE");
    reveal_strlit(";TZID=");
    reveal_strlit(":");
    reveal_strlit("TZID=");
    reveal_strlit("EXDATE;");
    reveal_strlit("RDATE;");
    reveal_strlit("EXDATE:");
    reveal_strlit("RDATE:");
    let l = name + ";TZID="@ + zone + ":"@ + values;
    let n = name.len() as int;
    let k = n + 6 + zone.len();
    assert(l[k] == ':');
    assert forall|j: int| 0 <= j < k implies #[trigger] l[j] != ':' by {
        if j < n {
            assert(l[j] == name[j]);
        } else if j < n + 6 {
            assert(l[j] == ";TZID="@[j - n]);
        } else {
            assert(l[j] == zone[j - n - 6]);
        }
    }
    lemma_first_colon_at(l, 0, k);
    assert(first_colon(l) == Some(k));
    let i = n + 1;
    assert forall|m: int| 0 <= m < "TZID="@.len() implies char_ci(l[i + m], #[trigger] "TZID="@[m]) by {
        assert(l[i + m] == ";TZID="@[m + 1]);
    }
    assert(l[i - 1] == ';');
    assert(tzid_at(l, i));
    if name == "EXDATE"@ {
        assert(l.subrange(0, 7) =~= "EXDATE;"@);
    } else {
        assert(l.subrange(0, 6) =~= "RDATE;"@);
    }
    assert(has_tzid_param(l));
    assert(dated_name(l));
    assert forall|j: int| 0 <= j < l.len() implies #[trigger] l[j] != '\n' && l[j] != '\r' by {
        if j < n {
            assert(l[j] == name[j]);
        } else if j < n + 6 {
            assert(l[j] == ";TZID="@[j - n]);
        } else if j < k {
            assert(l[j] == zone[j - n - 6]);
        } else if j == k {
        } else {
            assert(l[j] == values[j - k - 1]);
        }
    }
}

} // verus!
