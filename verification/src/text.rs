//! Character-level text utilities shared by the ICS, XML and URL logic.
//!
//! Strings are handled as sequences of `char`s: the view of a `String` or
//! `&str` is a `Seq<char>`, and the scanners work on `Vec<char>` copies.
use vstd::prelude::*;

verus! {

/// `p` is a prefix of `s`.
pub open spec fn starts_with(s: Seq<char>, p: Seq<char>) -> bool {
    p.len() <= s.len() && s.subrange(0, p.len() as int) == p
}

/// `p` is a suffix of `s`.
pub open spec fn ends_with(s: Seq<char>, p: Seq<char>) -> bool {
    p.len() <= s.len() && s.subrange(s.len() - p.len(), s.len() as int) == p
}

/// `p` occurs in `s` starting at position `i`.
pub open spec fn occurs_at(s: Seq<char>, p: Seq<char>, i: int) -> bool {
    0 <= i && i + p.len() <= s.len() && s.subrange(i, i + p.len()) == p
}

/// `p` occurs somewhere in `s` (`str::contains`); the empty pattern occurs everywhere.
pub open spec fn contains(s: Seq<char>, p: Seq<char>) -> bool {
    exists|i: int| occurs_at(s, p, i)
}

/// `s` with every trailing carriage return removed (`trim_end_matches('\r')`).
pub open spec fn trim_end_cr(s: Seq<char>) -> Seq<char>
    decreases s.len(),
{
    if s.len() > 0 && s.last() == '\r' {
        trim_end_cr(s.drop_last())
    } else {
        s
    }
}

/// `s` cut at every line feed; always at least one (possibly empty) piece.
pub open spec fn split_nl(s: Seq<char>) -> Seq<Seq<char>>
    decreases s.len(),
{
    if s.len() == 0 {
        seq![Seq::<char>::empty()]
    } else {
        let r = split_nl(s.drop_last());
        if s.last() == '\n' {
            r.push(Seq::<char>::empty())
        } else {
            r.update(r.len() - 1, r.last().push(s.last()))
        }
    }
}

/// The lines of `s` as `str::lines` yields them, each with its trailing
/// carriage returns removed: the text between line feeds, where a final
/// line feed does not open an empty last line and the empty text has no lines.
pub open spec fn clean_lines_of(s: Seq<char>) -> Seq<Seq<char>> {
    let segs = split_nl(s);
    let kept = if s.len() == 0 {
        Seq::<Seq<char>>::empty()
    } else if s.last() == '\n' {
        segs.drop_last()
    } else {
        segs
    };
    kept.map_values(|l: Seq<char>| trim_end_cr(l))
}

/// Whether a character has the Unicode `White_Space` property, the test of
/// `char::is_whitespace`: tab to carriage return, space, next line,
/// no-break space, ogham space mark, the spaces from en quad to hair space,
/// line and paragraph separators, narrow no-break space, medium
/// mathematical space and ideographic space.
pub open spec fn spec_is_whitespace(c: char) -> bool {
    let u = c as u32;
    ||| 0x09 <= u <= 0x0D
    ||| u == 0x20
    ||| u == 0x85
    ||| u == 0xA0
    ||| u == 0x1680
    ||| 0x2000 <= u <= 0x200A
    ||| u == 0x2028
    ||| u == 0x2029
    ||| u == 0x202F
    ||| u == 0x205F
    ||| u == 0x3000
}

/// Whether a character is white space (`char::is_whitespace`).
pub(crate) fn is_whitespace(c: char) -> (r: bool)
    ensures
        r == spec_is_whitespace(c),
{
    let u = c as u32;
    (0x09 <= u && u <= 0x0D) || u == 0x20 || u == 0x85 || u == 0xA0 || u == 0x1680 || (0x2000 <= u
        && u <= 0x200A) || u == 0x2028 || u == 0x2029 || u == 0x202F || u == 0x205F || u == 0x3000
}

/// `s` without leading white space.
pub open spec fn trim_start(s: Seq<char>) -> Seq<char>
    decreases s.len(),
{
    if s.len() > 0 && spec_is_whitespace(s[0]) {
        trim_start(s.drop_first())
    } else {
        s
    }
}

/// `s` without trailing white space.
pub open spec fn trim_end(s: Seq<char>) -> Seq<char>
    decreases s.len(),
{
    if s.len() > 0 && spec_is_whitespace(s.last()) {
        trim_end(s.drop_last())
    } else {
        s
    }
}

/// `s` without leading and trailing white space (`str::trim`).
pub open spec fn trim(s: Seq<char>) -> Seq<char> {
    trim_end(trim_start(s))
}

/// The lower-case form of a text, as `str::to_lowercase` computes it.
pub uninterp spec fn spec_to_lowercase(s: Seq<char>) -> Seq<char>;

/// Calls `str::to_lowercase`; the result is named `spec_to_lowercase`.
#[verifier::external_body]
pub(crate) fn to_lowercase(s: &str) -> (r: String)
    ensures
        r@ == spec_to_lowercase(s@),
{
    s.to_lowercase()
}

/// Collects characters into a `String` (`FromIterator<char>`).
#[verifier::external_body]
pub(crate) fn string_from_chars(cs: &[char]) -> (r: String)
    ensures
        r@ == cs@,
{
    cs.iter().collect()
}

/// The characters of a string, in order.
pub fn chars_of(s: &str) -> (r: Vec<char>)
    ensures
        r@ == s@,
{
    let mut out: Vec<char> = Vec::new();
    for c in it: s.chars()
        invariant
            out@ == it.seq().take(it.index() as int),
            it.seq() == s@,
    {
        out.push(c);
    }
    out
}

/// A copy of `a[from..to]`.
pub fn sub_chars(a: &[char], from: usize, to: usize) -> (r: Vec<char>)
    requires
        from <= to <= a@.len(),
    ensures
        r@ == a@.subrange(from as int, to as int),
{
    let mut out: Vec<char> = Vec::new();
    let mut i = from;
    while i < to
        invariant
            from <= i <= to <= a@.len(),
            out@ == a@.subrange(from as int, i as int),
        decreases to - i,
    {
        out.push(a[i]);
        i += 1;
        assert(out@ =~= a@.subrange(from as int, i as int));
    }
    out
}

/// The character sequences held by a vector of character vectors.
pub open spec fn views(v: Seq<Vec<char>>) -> Seq<Seq<char>> {
    v.map_values(|l: Vec<char>| l@)
}

/// `a` and the text `lit` hold the same characters.
pub fn eq_lit(a: &[char], lit: &str) -> (r: bool)
    ensures
        r == (a@ == lit@),
{
    let n = lit.unicode_len();
    if a.len() != n {
        return false;
    }
    let mut i: usize = 0;
    while i < n
        invariant
            n == a@.len() == lit@.len(),
            0 <= i <= n,
            a@.subrange(0, i as int) == lit@.subrange(0, i as int),
        decreases n - i,
    {
        if a[i] != lit.get_char(i) {
            return false;
        }
        i += 1;
        assert(a@.subrange(0, i as int) =~= lit@.subrange(0, i as int)) by {
            assert(a@.subrange(0, i as int) =~= a@.subrange(0, i - 1).push(a@[i - 1]));
            assert(lit@.subrange(0, i as int) =~= lit@.subrange(0, i - 1).push(lit@[i - 1]));
        }
    }
    assert(a@ =~= a@.subrange(0, n as int));
    assert(lit@ =~= lit@.subrange(0, n as int));
    true
}

/// `a` and `b` hold the same characters.
pub fn seq_eq(a: &[char], b: &[char]) -> (r: bool)
    ensures
        r == (a@ == b@),
{
    if a.len() != b.len() {
        return false;
    }
    let r = occurs_at_chars(a, b, 0);
    assert(r ==> a@ =~= b@) by {
        if r {
            assert(a@.subrange(0, b@.len() as int) =~= a@);
        }
    }
    assert(a@ == b@ ==> r) by {
        if a@ == b@ {
            assert(a@.subrange(0, b@.len() as int) =~= a@);
        }
    }
    r
}

/// `p` occurs in `a` at position `i`.
pub fn occurs_at_chars(a: &[char], p: &[char], i: usize) -> (r: bool)
    ensures
        r == occurs_at(a@, p@, i as int),
{
    let alen = a.len();
    if i > alen || p.len() > alen - i {
        return false;
    }
    let mut k: usize = 0;
    while k < p.len()
        invariant
            alen == a@.len(),
            i + p@.len() <= alen,
            0 <= k <= p@.len(),
            forall|j: int| 0 <= j < k ==> a@[i + j] == p@[j],
        decreases p@.len() - k,
    {
        if a[i + k] != p[k] {
            assert(a@.subrange(i as int, i + p@.len())[k as int] != p@[k as int]);
            return false;
        }
        k += 1;
    }
    assert(a@.subrange(i as int, i + p@.len()) =~= p@);
    true
}

/// The text `lit` occurs in `a` at position `i`.
pub fn occurs_lit_at(a: &[char], lit: &str, i: usize) -> (r: bool)
    ensures
        r == occurs_at(a@, lit@, i as int),
{
    let n = lit.unicode_len();
    let alen = a.len();
    if i > alen || n > alen - i {
        return false;
    }
    let mut k: usize = 0;
    while k < n
        invariant
            n == lit@.len(),
            alen == a@.len(),
            i + n <= alen,
            0 <= k <= n,
            forall|j: int| 0 <= j < k ==> a@[i + j] == lit@[j],
        decreases n - k,
    {
        if a[i + k] != lit.get_char(k) {
            assert(a@.subrange(i as int, i + n)[k as int] != lit@[k as int]);
            return false;
        }
        k += 1;
    }
    assert(a@.subrange(i as int, i + n) =~= lit@);
    true
}

/// `lit` is a prefix of `a`.
pub fn starts_with_lit(a: &[char], lit: &str) -> (r: bool)
    ensures
        r == starts_with(a@, lit@),
{
    occurs_lit_at(a, lit, 0)
}

/// `p` occurs somewhere in `a`.
pub fn contains_chars(a: &[char], p: &[char]) -> (r: bool)
    ensures
        r == contains(a@, p@),
{
    if p.len() > a.len() {
        assert forall|i: int| !occurs_at(a@, p@, i) by {}
        return false;
    }
    let last = a.len() - p.len();
    let mut i: usize = 0;
    loop
        invariant
            last == a@.len() - p@.len(),
            0 <= i <= last,
            forall|j: int| 0 <= j < i ==> !occurs_at(a@, p@, j),
        ensures
            forall|j: int| 0 <= j <= last ==> !occurs_at(a@, p@, j),
        decreases last - i,
    {
        if occurs_at_chars(a, p, i) {
            return true;
        }
        if i == last {
            break;
        }
        i += 1;
    }
    assert forall|j: int| !occurs_at(a@, p@, j) by {
        if 0 <= j <= last {
        }
    }
    false
}

/// `a` with every trailing carriage return removed.
pub fn trim_end_cr_chars(a: &[char]) -> (r: Vec<char>)
    ensures
        r@ == trim_end_cr(a@),
{
    let mut n = a.len();
    assert(a@.subrange(0, n as int) =~= a@);
    while n > 0 && a[n - 1] == '\r'
        invariant
            0 <= n <= a@.len(),
            trim_end_cr(a@) == trim_end_cr(a@.subrange(0, n as int)),
        decreases n,
    {
        assert(a@.subrange(0, n as int).drop_last() =~= a@.subrange(0, n - 1));
        n -= 1;
    }
    assert(trim_end_cr(a@.subrange(0, n as int)) == a@.subrange(0, n as int));
    sub_chars(a, 0, n)
}

/// `a` without leading and trailing white space.
pub fn trim_chars(a: &[char]) -> (r: Vec<char>)
    ensures
        r@ == trim(a@),
{
    let mut lo: usize = 0;
    assert(a@.subrange(0, a@.len() as int) =~= a@);
    while lo < a.len() && is_whitespace(a[lo])
        invariant
            0 <= lo <= a@.len(),
            trim_start(a@) == trim_start(a@.subrange(lo as int, a@.len() as int)),
        decreases a@.len() - lo,
    {
        assert(a@.subrange(lo as int, a@.len() as int).drop_first() =~= a@.subrange(
            lo + 1,
            a@.len() as int,
        ));
        lo += 1;
    }
    let ghost rest = a@.subrange(lo as int, a@.len() as int);
    assert(trim_start(rest) == rest);
    let mut hi: usize = a.len();
    while hi > lo && is_whitespace(a[hi - 1])
        invariant
            lo <= hi <= a@.len(),
            rest == a@.subrange(lo as int, a@.len() as int),
            trim_end(rest) == trim_end(a@.subrange(lo as int, hi as int)),
        decreases hi,
    {
        assert(a@.subrange(lo as int, hi as int).drop_last() =~= a@.subrange(lo as int, hi - 1));
        hi -= 1;
    }
    assert(trim_end(a@.subrange(lo as int, hi as int)) == a@.subrange(lo as int, hi as int));
    sub_chars(a, lo, hi)
}

/// The lines of `a`, each without trailing carriage returns (see `clean_lines_of`).
pub fn clean_lines(a: &[char]) -> (r: Vec<Vec<char>>)
    ensures
        views(r@) == clean_lines_of(a@),
{
    let mut done: Vec<Vec<char>> = Vec::new();
    let mut cur: Vec<char> = Vec::new();
    let mut i: usize = 0;
    while i < a.len()
        invariant
            0 <= i <= a@.len(),
            views(done@).push(cur@) == split_nl(a@.subrange(0, i as int)),
        decreases a@.len() - i,
    {
        let ghost before = views(done@).push(cur@);
        assert(a@.subrange(0, i + 1).drop_last() =~= a@.subrange(0, i as int));
        if a[i] == '\n' {
            done.push(cur);
            cur = Vec::new();
            assert(views(done@).push(cur@) =~= before.push(Seq::<char>::empty()));
        } else {
            cur.push(a[i]);
            assert(views(done@).push(cur@) =~= before.update(
                before.len() - 1,
                before.last().push(a@[i as int]),
            ));
        }
        i += 1;
    }
    assert(a@.subrange(0, a@.len() as int) =~= a@);
    let ghost segs = split_nl(a@);
    let keep_last = a.len() > 0 && a[a.len() - 1] != '\n';
    if keep_last {
        done.push(cur);
    }
    let ghost kept = views(done@);
    assert(kept =~= (if a@.len() == 0 {
        Seq::<Seq<char>>::empty()
    } else if a@.last() == '\n' {
        segs.drop_last()
    } else {
        segs
    })) by {
        if a@.len() == 0 {
            assert(segs.len() == 1);
        }
    }
    let mut out: Vec<Vec<char>> = Vec::new();
    let mut k: usize = 0;
    while k < done.len()
        invariant
            0 <= k <= done@.len(),
            kept == views(done@),
            views(out@) == kept.subrange(0, k as int).map_values(
                |l: Seq<char>| trim_end_cr(l),
            ),
        decreases done@.len() - k,
    {
        let t = trim_end_cr_chars(done[k].as_slice());
        assert(t@ == trim_end_cr(kept[k as int]));
        let ghost prev = views(out@);
        out.push(t);
        assert(views(out@) =~= prev.push(t@));
        k += 1;
        assert(views(out@) =~= kept.subrange(0, k as int).map_values(
            |l: Seq<char>| trim_end_cr(l),
        ));
    }
    assert(kept.subrange(0, kept.len() as int) =~= kept);
    out
}

} // verus!

verus! {

/// The view of an optional string.
pub open spec fn opt_view(o: Option<String>) -> Option<Seq<char>> {
    match o {
        Some(s) => Some(s@),
        None => None,
    }
}

/// The text `lit` occurs somewhere in `a`.
pub fn contains_lit(a: &[char], lit: &str) -> (r: bool)
    ensures
        r == contains(a@, lit@),
{
    let p = chars_of(lit);
    contains_chars(a, p.as_slice())
}

/// A copy of an optional string.
pub fn clone_opt(s: &Option<String>) -> (r: Option<String>)
    ensures
        opt_view(r) == opt_view(*s),
{
    match s {
        Some(t) => Some(t.clone()),
        None => None,
    }
}

} // verus!

verus! {

/// The texts of `items` with `sep` between neighbours.
pub open spec fn join(items: Seq<Seq<char>>, sep: Seq<char>) -> Seq<char>
    decreases items.len(),
{
    if items.len() == 0 {
        Seq::empty()
    } else if items.len() == 1 {
        items[0]
    } else {
        join(items.drop_last(), sep) + sep + items.last()
    }
}

/// The strings of `items` with `sep` between neighbours (`[String]::join`).
pub fn join_strings(items: &Vec<String>, sep: &str) -> (r: String)
    ensures
        r@ == join(items@.map_values(|s: String| s@), sep@),
{
    let ghost vs = items@.map_values(|s: String| s@);
    let mut out = String::new();
    let mut i: usize = 0;
    while i < items.len()
        invariant
            0 <= i <= items@.len(),
            vs == items@.map_values(|s: String| s@),
            out@ == join(vs.subrange(0, i as int), sep@),
        decreases items@.len() - i,
    {
        let ghost prefix = vs.subrange(0, i + 1);
        assert(prefix.drop_last() =~= vs.subrange(0, i as int));
        assert(prefix.last() == items@[i as int]@);
        if i > 0 {
            out.append(sep);
        }
        out.append(items[i].as_str());
        i += 1;
    }
    assert(vs.subrange(0, items@.len() as int) =~= vs);
    out
}

} // verus!

verus! {

/// The first position at or after `i` where `p` occurs in `s`.
pub open spec fn find_from(s: Seq<char>, p: Seq<char>, i: int) -> Option<int>
    decreases s.len() + 1 - i,
{
    if i < 0 || i + p.len() > s.len() {
        None
    } else if occurs_at(s, p, i) {
        Some(i)
    } else {
        find_from(s, p, i + 1)
    }
}

/// The first position at or after `from` where the text `lit` occurs in `a`.
pub fn find_lit_from(a: &[char], lit: &str, from: usize) -> (r: Option<usize>)
    ensures
        match r {
            Some(k) => find_from(a@, lit@, from as int) == Some(k as int) && from <= k && k + lit@.len()
                <= a@.len(),
            None => find_from(a@, lit@, from as int) is None,
        },
{
    let n = lit.unicode_len();
    let alen = a.len();
    if from > alen || n > alen - from {
        return None;
    }
    let mut i = from;
    loop
        invariant
            n == lit@.len(),
            alen == a@.len(),
            from <= i,
            i + n <= alen,
            find_from(a@, lit@, from as int) == find_from(a@, lit@, i as int),
        decreases alen - i,
    {
        if occurs_lit_at(a, lit, i) {
            return Some(i);
        }
        if i + n == alen {
            assert(find_from(a@, lit@, i + 1) is None);
            return None;
        }
        i += 1;
    }
}

/// `s` with every CR LF pair replaced by a lone LF.
pub open spec fn crlf_to_lf(s: Seq<char>) -> Seq<char>
    decreases s.len(),
{
    if s.len() == 0 {
        Seq::empty()
    } else if s.len() >= 2 && s.last() == '\n' && s[s.len() - 2] == '\r' {
        crlf_to_lf(s.subrange(0, s.len() - 2)).push('\n')
    } else {
        crlf_to_lf(s.drop_last()).push(s.last())
    }
}

/// A trailing carriage return is removed with the others.
proof fn lemma_trim_end_cr_push_cr(s: Seq<char>)
    ensures
        trim_end_cr(s.push('\r')) == trim_end_cr(s),
{
    assert(s.push('\r').drop_last() =~= s);
}

/// A text has at least one piece.
proof fn lemma_split_nl_nonempty(s: Seq<char>)
    ensures
        split_nl(s).len() >= 1,
    decreases s.len(),
{
    if s.len() > 0 {
        lemma_split_nl_nonempty(s.drop_last());
    }
}

/// The pieces of a text and of its LF form match: as many, the same once
/// their trailing carriage returns are removed, and the last one equal.
proof fn lemma_split_nl_crlf(s: Seq<char>)
    ensures
        split_nl(crlf_to_lf(s)).len() == split_nl(s).len(),
        split_nl(crlf_to_lf(s)).last() == split_nl(s).last(),
        forall|i: int|
            0 <= i < split_nl(s).len() ==> trim_end_cr(#[trigger] split_nl(crlf_to_lf(s))[i])
                == trim_end_cr(split_nl(s)[i]),
        crlf_to_lf(s).len() == 0 <==> s.len() == 0,
        s.len() > 0 ==> (crlf_to_lf(s).last() == '\n' <==> s.last() == '\n'),
    decreases s.len(),
{
    if s.len() == 0 {
    } else if s.len() >= 2 && s.last() == '\n' && s[s.len() - 2] == '\r' {
        let u = s.subrange(0, s.len() - 2);
        lemma_split_nl_crlf(u);
        lemma_split_nl_nonempty(u);
        let t = crlf_to_lf(u);
        let v = s.drop_last();
        assert(v == u.push('\r'));
        assert(v.drop_last() =~= u);
        let pu = split_nl(u);
        let pt = split_nl(t);
        let pv = split_nl(v);
        assert(pv == pu.update(pu.len() - 1, pu.last().push('\r')));
        assert(split_nl(s) == pv.push(Seq::<char>::empty()));
        assert(t.push('\n').drop_last() =~= t);
        assert(split_nl(crlf_to_lf(s)) == pt.push(Seq::<char>::empty()));
        lemma_trim_end_cr_push_cr(pu.last());
        assert forall|i: int| 0 <= i < split_nl(s).len() implies trim_end_cr(
            #[trigger] split_nl(crlf_to_lf(s))[i],
        ) == trim_end_cr(split_nl(s)[i]) by {
            if i < pu.len() - 1 {
                assert(split_nl(crlf_to_lf(s))[i] == pt[i]);
                assert(split_nl(s)[i] == pu[i]);
                assert(trim_end_cr(pt[i]) == trim_end_cr(pu[i]));
            } else if i == pu.len() - 1 {
                assert(split_nl(crlf_to_lf(s))[i] == pt.last());
                assert(split_nl(s)[i] == pu.last().push('\r'));
            }
        }
    } else {
        let v = s.drop_last();
        lemma_split_nl_crlf(v);
        lemma_split_nl_nonempty(v);
        let t = crlf_to_lf(v);
        let c = s.last();
        assert(crlf_to_lf(s) == t.push(c));
        assert(t.push(c).drop_last() =~= t);
        let pv = split_nl(v);
        let pt = split_nl(t);
        if c == '\n' {
            assert(split_nl(s) == pv.push(Seq::<char>::empty()));
            assert(split_nl(crlf_to_lf(s)) == pt.push(Seq::<char>::empty()));
            assert forall|i: int| 0 <= i < split_nl(s).len() implies trim_end_cr(
                #[trigger] split_nl(crlf_to_lf(s))[i],
            ) == trim_end_cr(split_nl(s)[i]) by {
                if i < pv.len() {
                    assert(split_nl(crlf_to_lf(s))[i] == pt[i]);
                    assert(split_nl(s)[i] == pv[i]);
                    assert(trim_end_cr(pt[i]) == trim_end_cr(pv[i]));
                }
            }
        } else {
            assert(split_nl(s) == pv.update(pv.len() - 1, pv.last().push(c)));
            assert(split_nl(crlf_to_lf(s)) == pt.update(pt.len() - 1, pt.last().push(c)));
            assert forall|i: int| 0 <= i < split_nl(s).len() implies trim_end_cr(
                #[trigger] split_nl(crlf_to_lf(s))[i],
            ) == trim_end_cr(split_nl(s)[i]) by {
                if i < pv.len() - 1 {
                    assert(split_nl(crlf_to_lf(s))[i] == pt[i]);
                    assert(split_nl(s)[i] == pv[i]);
                    assert(trim_end_cr(pt[i]) == trim_end_cr(pv[i]));
                }
            }
        }
    }
}

/// The lines of a text do not change when its CR LF pairs become LFs.
pub proof fn lemma_clean_lines_crlf(s: Seq<char>)
    ensures
        clean_lines_of(crlf_to_lf(s)) == clean_lines_of(s),
{
    lemma_split_nl_crlf(s);
    let t = crlf_to_lf(s);
    let ps = split_nl(s);
    let pt = split_nl(t);
    if s.len() == 0 {
        assert(clean_lines_of(t) =~= clean_lines_of(s));
    } else if s.last() == '\n' {
        assert forall|i: int| 0 <= i < ps.drop_last().len() implies trim_end_cr(
            #[trigger] pt.drop_last()[i],
        ) == trim_end_cr(ps.drop_last()[i]) by {
            assert(pt.drop_last()[i] == pt[i]);
            assert(ps.drop_last()[i] == ps[i]);
        }
        assert(clean_lines_of(t) =~= clean_lines_of(s));
    } else {
        assert(clean_lines_of(t) =~= clean_lines_of(s));
    }
}

} // verus!
