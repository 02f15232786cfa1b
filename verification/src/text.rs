//! Character-level text operations with specifications over `Seq<char>`.
//!
//! Positions are character positions: slicing at the character offset of a
//! match gives the same characters as slicing a `str` at the byte offset
//! that `str::find` returns for it.
use vstd::prelude::*;

verus! {

broadcast use vstd::string::group_string_axioms;

/// `p` occurs in `s` starting at position `i`.
pub open spec fn matches_at(s: Seq<char>, p: Seq<char>, i: int) -> bool {
    0 <= i && i + p.len() <= s.len() && s.subrange(i, i + p.len()) == p
}

/// The first position at or after `i` where `p` occurs in `s`.
pub open spec fn find_from(s: Seq<char>, p: Seq<char>, i: int) -> Option<int>
    decreases s.len() + 1 - i,
{
    if i < 0 || i + p.len() > s.len() {
        None
    } else if s.subrange(i, i + p.len()) == p {
        Some(i)
    } else {
        find_from(s, p, i + 1)
    }
}

/// The first position where `p` occurs in `s` (what `str::find` returns).
pub open spec fn find(s: Seq<char>, p: Seq<char>) -> Option<int> {
    find_from(s, p, 0)
}

/// `p` occurs somewhere in `s`.
pub open spec fn contains(s: Seq<char>, p: Seq<char>) -> bool {
    find(s, p) is Some
}

/// `s` begins with `p`.
pub open spec fn starts_with(s: Seq<char>, p: Seq<char>) -> bool {
    p.len() <= s.len() && s.take(p.len() as int) == p
}

/// `s` ends with `p`.
pub open spec fn ends_with(s: Seq<char>, p: Seq<char>) -> bool {
    p.len() <= s.len() && s.skip(s.len() - p.len()) == p
}

/// A result of `find_from` is a real, first occurrence.
pub proof fn lemma_find_from_is_first(s: Seq<char>, p: Seq<char>, i: int)
    requires
        0 <= i,
    ensures
        find_from(s, p, i) matches Some(j) ==> {
            &&& i <= j
            &&& matches_at(s, p, j)
            &&& forall|k: int| i <= k < j ==> !matches_at(s, p, k)
        },
        find_from(s, p, i) is None ==> forall|k: int| i <= k ==> !matches_at(s, p, k),
    decreases s.len() + 1 - i,
{
    if i + p.len() > s.len() {
    } else if s.subrange(i, i + p.len()) == p {
    } else {
        lemma_find_from_is_first(s, p, i + 1);
    }
}

/// Searching a suffix of `s` finds what searching `s` itself finds from that
/// suffix on, shifted by where the suffix starts.
pub proof fn lemma_find_from_skip(s: Seq<char>, p: Seq<char>, d: int, i: int)
    requires
        0 <= d <= s.len(),
        0 <= i,
    ensures
        find_from(s.skip(d), p, i) == (match find_from(s, p, i + d) {
            Some(j) => Some(j - d),
            None => None::<int>,
        }),
    decreases s.len() + 1 - (i + d),
{
    let t = s.skip(d);
    if i + p.len() > t.len() {
    } else {
        assert(t.subrange(i, i + p.len()) =~= s.subrange(i + d, i + d + p.len()));
        if t.subrange(i, i + p.len()) == p {
        } else {
            lemma_find_from_skip(s, p, d, i + 1);
        }
    }
}

/// The characters of `s`, in order.
pub fn chars_of(s: &str) -> (v: Vec<char>)
    ensures
        v@ == s@,
{
    let mut v: Vec<char> = Vec::new();
    for c in it: s.chars()
        invariant
            v@ == it.history(),
    {
        v.push(c);
    }
    proof {
        assert(v@ =~= s@);
    }
    v
}

/// Whether `p` occurs in `s` at position `i`.
pub fn matches_at_exec(s: &Vec<char>, p: &Vec<char>, i: usize) -> (r: bool)
    ensures
        r == matches_at(s@, p@, i as int),
{
    if i > s.len() || p.len() > s.len() - i {
        return false;
    }
    let mut k: usize = 0;
    while k < p.len()
        invariant
            i + p.len() <= s.len(),
            k <= p.len(),
            forall|j: int| 0 <= j < k ==> s@[i + j] == p@[j],
        decreases p.len() - k,
    {
        if s[i + k] != p[k] {
            proof {
                assert(s@.subrange(i as int, i + p.len())[k as int] == s@[i + k]);
            }
            return false;
        }
        k += 1;
    }
    proof {
        assert(s@.subrange(i as int, i + p.len()) =~= p@);
    }
    true
}

/// The first position at or after `from` where `p` occurs in `s`.
pub fn find_exec(s: &Vec<char>, p: &Vec<char>, from: usize) -> (r: Option<usize>)
    ensures
        match r {
            Some(i) => find_from(s@, p@, from as int) == Some(i as int),
            None => find_from(s@, p@, from as int) is None,
        },
{
    if p.len() == 0 {
        if from <= s.len() {
            proof {
                assert(s@.subrange(from as int, from as int) =~= p@);
            }
            return Some(from);
        }
        return None;
    }
    if p.len() > s.len() {
        return None;
    }
    let last: usize = s.len() - p.len();
    let mut i: usize = from;
    while i <= last
        invariant
            last == s.len() - p.len(),
            p.len() >= 1,
            from <= i,
            find_from(s@, p@, from as int) == find_from(s@, p@, i as int),
        decreases last + 1 - i,
    {
        if matches_at_exec(s, p, i) {
            return Some(i);
        }
        i += 1;
    }
    None
}

/// Whether `p` occurs anywhere in `s`.
pub fn contains_exec(s: &Vec<char>, p: &Vec<char>) -> (r: bool)
    ensures
        r == contains(s@, p@),
{
    find_exec(s, p, 0).is_some()
}

/// Whether `s` begins with `p`.
pub fn starts_with_exec(s: &Vec<char>, p: &Vec<char>) -> (r: bool)
    ensures
        r == starts_with(s@, p@),
{
    let r = matches_at_exec(s, p, 0);
    proof {
        if p@.len() <= s@.len() {
            assert(s@.subrange(0, p@.len() as int) =~= s@.take(p@.len() as int));
        }
    }
    r
}

/// Whether `s` ends with `p`.
pub fn ends_with_exec(s: &Vec<char>, p: &Vec<char>) -> (r: bool)
    ensures
        r == ends_with(s@, p@),
{
    if p.len() > s.len() {
        return false;
    }
    let r = matches_at_exec(s, p, s.len() - p.len());
    proof {
        assert(s@.subrange(s@.len() - p@.len(), s@.len() as int) =~= s@.skip(s@.len() - p@.len()));
    }
    r
}

/// Appends one character to a string (`String::push`).
#[verifier::external_body]
pub(crate) fn push_char(s: &mut String, c: char)
    ensures
        final(s)@ == old(s)@.push(c),
{
    s.push(c);
}

/// Equality of two strings by their characters.
pub fn str_eq(a: &str, b: &str) -> (r: bool)
    ensures
        r == (a@ == b@),
{
    let x = String::from_str(a);
    let y = String::from_str(b);
    x == y
}

/// The decimal digit `d` as text.
pub open spec fn digit_text(d: nat) -> Seq<char> {
    if d == 0 {
        "0"@
    } else if d == 1 {
        "1"@
    } else if d == 2 {
        "2"@
    } else if d == 3 {
        "3"@
    } else if d == 4 {
        "4"@
    } else if d == 5 {
        "5"@
    } else if d == 6 {
        "6"@
    } else if d == 7 {
        "7"@
    } else if d == 8 {
        "8"@
    } else {
        "9"@
    }
}

/// `n` written in decimal, without leading zeros (what `Display` prints).
pub open spec fn decimal(n: nat) -> Seq<char>
    decreases n,
{
    if n < 10 {
        digit_text(n)
    } else {
        decimal(n / 10) + digit_text(n % 10)
    }
}

/// A signed integer written in decimal.
pub open spec fn signed_decimal(n: int) -> Seq<char> {
    if n < 0 {
        "-"@ + decimal((-n) as nat)
    } else {
        decimal(n as nat)
    }
}

fn digit_str(d: u128) -> (r: &'static str)
    requires
        d < 10,
    ensures
        r@ == digit_text(d as nat),
{
    if d == 0 {
        "0"
    } else if d == 1 {
        "1"
    } else if d == 2 {
        "2"
    } else if d == 3 {
        "3"
    } else if d == 4 {
        "4"
    } else if d == 5 {
        "5"
    } else if d == 6 {
        "6"
    } else if d == 7 {
        "7"
    } else if d == 8 {
        "8"
    } else {
        "9"
    }
}

/// Appends `n` in decimal to `out`.
pub fn append_decimal(out: &mut String, n: u128)
    ensures
        final(out)@ == old(out)@ + decimal(n as nat),
    decreases n,
{
    if n >= 10 {
        append_decimal(out, n / 10);
    }
    out.append(digit_str(n % 10));
    proof {
        if n >= 10 {
            assert(old(out)@ + decimal((n / 10) as nat) + digit_text((n % 10) as nat)
                =~= old(out)@ + decimal(n as nat));
        } else {
            assert(old(out)@ + digit_text((n % 10) as nat) =~= old(out)@ + decimal(n as nat));
        }
    }
}

/// Appends a signed integer in decimal to `out`.
pub fn append_signed_decimal(out: &mut String, n: i64)
    ensures
        final(out)@ == old(out)@ + signed_decimal(n as int),
{
    if n < 0 {
        out.append("-");
        let m: u128 = (0i128 - (n as i128)) as u128;
        append_decimal(out, m);
        proof {
            assert(old(out)@ + "-"@ + decimal(m as nat) =~= old(out)@ + signed_decimal(n as int));
        }
    } else {
        append_decimal(out, n as u128);
    }
}

/// The last position of `c` in `s` before position `end`.
pub open spec fn last_index_before(s: Seq<char>, c: char, end: int) -> Option<int>
    decreases end,
{
    if end <= 0 || end > s.len() {
        None
    } else if s[end - 1] == c {
        Some(end - 1)
    } else {
        last_index_before(s, c, end - 1)
    }
}

/// A result of `last_index_before` is a real, last occurrence.
pub proof fn lemma_last_index_before(s: Seq<char>, c: char, end: int)
    ensures
        last_index_before(s, c, end) matches Some(k) ==> 0 <= k < end && k < s.len() && s[k] == c
            && forall|j: int| k < j < end ==> s[j] != c,
        last_index_before(s, c, end) is None && end <= s.len() ==> forall|j: int|
            0 <= j < end ==> s[j] != c,
    decreases end,
{
    if end <= 0 || end > s.len() {
    } else if s[end - 1] == c {
    } else {
        lemma_last_index_before(s, c, end - 1);
    }
}

/// The last position of `c` in `s`.
pub open spec fn last_index(s: Seq<char>, c: char) -> Option<int> {
    last_index_before(s, c, s.len() as int)
}

/// The last position of `c` in `s`.
pub fn last_index_exec(s: &Vec<char>, c: char) -> (r: Option<usize>)
    ensures
        match r {
            Some(i) => last_index(s@, c) == Some(i as int) && i < s@.len(),
            None => last_index(s@, c) is None,
        },
{
    proof {
        lemma_last_index_before(s@, c, s@.len() as int);
    }
    let mut end: usize = s.len();
    while end > 0
        invariant
            end <= s.len(),
            last_index(s@, c) == last_index_before(s@, c, end as int),
        decreases end,
    {
        if s[end - 1] == c {
            return Some(end - 1);
        }
        end -= 1;
    }
    None
}

/// The first index at or after `i` whose element satisfies `pred`.
pub open spec fn first_index_from<A>(s: Seq<A>, pred: spec_fn(A) -> bool, i: int) -> Option<int>
    decreases s.len() - i,
{
    if i < 0 || i >= s.len() {
        None
    } else if pred(s[i]) {
        Some(i)
    } else {
        first_index_from(s, pred, i + 1)
    }
}

/// The first index whose element satisfies `pred`.
pub open spec fn first_index<A>(s: Seq<A>, pred: spec_fn(A) -> bool) -> Option<int> {
    first_index_from(s, pred, 0)
}

/// What `first_index_from` returns is the first such index.
pub proof fn lemma_first_index_from<A>(s: Seq<A>, pred: spec_fn(A) -> bool, i: int)
    requires
        0 <= i,
    ensures
        first_index_from(s, pred, i) matches Some(j) ==> i <= j < s.len() && pred(s[j])
            && forall|k: int| i <= k < j ==> !pred(#[trigger] s[k]),
        first_index_from(s, pred, i) is None ==> forall|k: int| i <= k < s.len() ==> !pred(
            #[trigger] s[k],
        ),
    decreases s.len() - i,
{
    if i >= s.len() {
    } else if pred(s[i]) {
    } else {
        lemma_first_index_from(s, pred, i + 1);
    }
}

/// `first_index_from` returns any index that satisfies `pred` and has no
/// such index before it, from `i` on; and nothing when there is none.
pub proof fn lemma_first_index_from_char<A>(s: Seq<A>, pred: spec_fn(A) -> bool, i: int, j: int)
    requires
        0 <= i <= j <= s.len(),
        forall|k: int| i <= k < j ==> !pred(#[trigger] s[k]),
        j < s.len() ==> pred(s[j]),
    ensures
        first_index_from(s, pred, i) == if j < s.len() {
            Some(j)
        } else {
            None::<int>
        },
    decreases j - i,
{
    if i < j {
        lemma_first_index_from_char(s, pred, i + 1, j);
    }
}

/// White space as `char::is_whitespace` defines it (the Unicode
/// `White_Space` property).
pub open spec fn is_whitespace(c: char) -> bool {
    c == ' ' || ('\t' <= c && c <= '\r') || c == '\u{85}' || c == '\u{a0}' || c == '\u{1680}' || (
    '\u{2000}' <= c && c <= '\u{200a}') || c == '\u{2028}' || c == '\u{2029}' || c == '\u{202f}'
        || c == '\u{205f}' || c == '\u{3000}'
}

/// Whether `c` is white space.
pub fn is_whitespace_exec(c: char) -> (r: bool)
    ensures
        r == is_whitespace(c),
{
    c == ' ' || ('\t' <= c && c <= '\r') || c == '\u{85}' || c == '\u{a0}' || c == '\u{1680}' || (
    '\u{2000}' <= c && c <= '\u{200a}') || c == '\u{2028}' || c == '\u{2029}' || c == '\u{202f}'
        || c == '\u{205f}' || c == '\u{3000}'
}

/// `s` without trailing white space (`str::trim_end`).
pub open spec fn trim_end(s: Seq<char>) -> Seq<char>
    decreases s.len(),
{
    if s.len() > 0 && is_whitespace(s.last()) {
        trim_end(s.drop_last())
    } else {
        s
    }
}

/// `s` without leading white space (`str::trim_start`).
pub open spec fn trim_start(s: Seq<char>) -> Seq<char>
    decreases s.len(),
{
    if s.len() > 0 && is_whitespace(s[0]) {
        trim_start(s.drop_first())
    } else {
        s
    }
}

/// `s` without leading or trailing white space (`str::trim`).
pub open spec fn trim(s: Seq<char>) -> Seq<char> {
    trim_end(trim_start(s))
}

/// Where the text of `v[lo..]` ends once trailing white space is removed.
pub fn trim_end_from(v: &Vec<char>, lo: usize) -> (hi: usize)
    requires
        lo <= v@.len(),
    ensures
        lo <= hi <= v@.len(),
        v@.subrange(lo as int, hi as int) == trim_end(v@.skip(lo as int)),
{
    let mut hi = v.len();
    assert(v@.subrange(lo as int, v@.len() as int) =~= v@.skip(lo as int));
    while hi > lo && is_whitespace_exec(v[hi - 1])
        invariant
            lo <= hi <= v@.len(),
            trim_end(v@.skip(lo as int)) == trim_end(v@.subrange(lo as int, hi as int)),
        decreases hi,
    {
        assert(v@.subrange(lo as int, hi as int).drop_last() =~= v@.subrange(lo as int, hi - 1));
        hi -= 1;
    }
    hi
}

/// Where the text of `v` starts once leading white space is removed.
pub fn trim_start_from(v: &Vec<char>) -> (lo: usize)
    ensures
        lo <= v@.len(),
        v@.skip(lo as int) == trim_start(v@),
{
    let mut lo: usize = 0;
    assert(v@.skip(0) =~= v@);
    while lo < v.len() && is_whitespace_exec(v[lo])
        invariant
            lo <= v@.len(),
            trim_start(v@) == trim_start(v@.skip(lo as int)),
        decreases v@.len() - lo,
    {
        assert(v@.skip(lo as int).drop_first() =~= v@.skip(lo + 1));
        lo += 1;
    }
    lo
}

/// `s` without leading or trailing white space.
pub fn trim_string(s: &str) -> (r: String)
    ensures
        r@ == trim(s@),
{
    let v = chars_of(s);
    let lo = trim_start_from(&v);
    let hi = trim_end_from(&v, lo);
    String::from_str(s.substring_char(lo, hi))
}

/// A character is a newline.
pub open spec fn is_newline() -> spec_fn(char) -> bool {
    |c: char| c == '\n'
}

/// A line without the carriage return that ends it, if one does.
pub open spec fn strip_cr(x: Seq<char>) -> Seq<char> {
    if x.len() > 0 && x.last() == '\r' {
        x.drop_last()
    } else {
        x
    }
}

/// The lines of `s`, as `str::lines` gives them: split at each newline, a
/// carriage return before a newline dropped, no line after a final newline.
pub open spec fn lines(s: Seq<char>) -> Seq<Seq<char>>
    decreases s.len(),
{
    if s.len() == 0 {
        Seq::empty()
    } else {
        match first_index(s, is_newline()) {
            Some(k) => {
                proof {
                    lemma_first_index_from(s, is_newline(), 0);
                }
                seq![strip_cr(s.take(k))] + lines(s.skip(k + 1))
            },
            None => seq![s],
        }
    }
}

/// The text that a span of `v` covers.
pub open spec fn span_text(v: Seq<char>) -> spec_fn((usize, usize)) -> Seq<char> {
    |p: (usize, usize)| v.subrange(p.0 as int, p.1 as int)
}

/// The spans of `v` that its lines occupy, start and end.
pub fn line_spans(v: &Vec<char>) -> (r: Vec<(usize, usize)>)
    ensures
        forall|i: int| 0 <= i < r@.len() ==> (#[trigger] r@[i]).0 <= r@[i].1 <= v@.len(),
        r@.map_values(span_text(v@)) == lines(v@),
{
    let mut r: Vec<(usize, usize)> = Vec::new();
    let mut pos: usize = 0;
    assert(v@.skip(0) =~= v@);
    assert(r@.map_values(span_text(v@)) + lines(v@) =~= lines(v@));
    while pos < v.len()
        invariant
            pos <= v@.len(),
            forall|i: int| 0 <= i < r@.len() ==> (#[trigger] r@[i]).0 <= r@[i].1 <= v@.len(),
            r@.map_values(span_text(v@)) + lines(v@.skip(pos as int)) == lines(v@),
        decreases v@.len() - pos,
    {
        let ghost rest = v@.skip(pos as int);
        let mut k = pos;
        while k < v.len() && v[k] != '\n'
            invariant
                pos <= k <= v@.len(),
                forall|j: int| pos <= j < k ==> v@[j] != '\n',
            decreases v@.len() - k,
        {
            k += 1;
        }
        proof {
            assert forall|j: int| 0 <= j < k - pos implies !(is_newline())(#[trigger] rest[j]) by {
                assert(rest[j] == v@[pos + j]);
            }
            if k < v@.len() {
                assert(rest[k - pos] == v@[k as int]);
            }
            lemma_first_index_from_char(rest, is_newline(), 0, k - pos);
        }
        let mut end = k;
        if k < v.len() && end > pos && v[end - 1] == '\r' {
            end = end - 1;
        }
        let ghost before = r@;
        r.push((pos, end));
        proof {
            assert(r@.map_values(span_text(v@)) =~= before.map_values(span_text(v@)).push(
                v@.subrange(pos as int, end as int),
            ));
            assert(rest.take(k - pos) =~= v@.subrange(pos as int, k as int));
        }
        if k < v.len() {
            proof {
                assert(strip_cr(rest.take(k - pos)) =~= v@.subrange(pos as int, end as int));
                assert(rest.skip(k - pos + 1) =~= v@.skip(k + 1));
                assert(lines(rest) == seq![strip_cr(rest.take(k - pos))] + lines(rest.skip(k - pos + 1)));
                assert(before.map_values(span_text(v@)) + lines(rest) =~= r@.map_values(span_text(v@))
                    + lines(v@.skip(k + 1)));
            }
            pos = k + 1;
        } else {
            proof {
                assert(rest =~= v@.subrange(pos as int, end as int));
                assert(lines(rest) == seq![rest]);
                assert(v@.skip(k as int) =~= Seq::<char>::empty());
                assert(lines(v@.skip(k as int)) =~= Seq::<Seq<char>>::empty());
                assert(before.map_values(span_text(v@)) + lines(rest) =~= r@.map_values(span_text(v@))
                    + lines(v@.skip(k as int)));
            }
            pos = k;
        }
    }
    proof {
        assert(v@.skip(pos as int) =~= Seq::<char>::empty());
        assert(r@.map_values(span_text(v@)) + Seq::<Seq<char>>::empty() =~= r@.map_values(
            span_text(v@),
        ));
    }
    r
}

} // verus!
