//! The ports the server listens on, from the text of their settings.
use vstd::prelude::*;
use crate::text::{chars_of, trim, trim_start_from, trim_end_from};

verus! {

/// The value of a decimal digit character.
pub open spec fn digit_value(c: char) -> nat {
    (c as int - '0' as int) as nat
}

/// Every character of `d` is an ASCII digit.
pub open spec fn all_digits(d: Seq<char>) -> bool {
    forall|i: int| 0 <= i < d.len() ==> '0' <= #[trigger] d[i] <= '9'
}

/// The number that the decimal digits `d` write.
pub open spec fn digits_value(d: Seq<char>) -> nat
    decreases d.len(),
{
    if d.len() == 0 {
        0
    } else {
        digits_value(d.drop_last()) * 10 + digit_value(d.last())
    }
}

/// The digits of an unsigned number's text: after a `+` sign, if it has one.
pub open spec fn unsigned_digits(s: Seq<char>) -> Seq<char> {
    if s.len() > 0 && s[0] == '+' {
        s.drop_first()
    } else {
        s
    }
}

/// `s` read as a `u16` the way `str::parse::<u16>` reads it: an optional `+`,
/// then one or more ASCII digits whose number fits in 16 bits.
pub open spec fn parse_u16(s: Seq<char>) -> Option<u16> {
    let d = unsigned_digits(s);
    if d.len() > 0 && all_digits(d) && digits_value(d) <= u16::MAX {
        Some(digits_value(d) as u16)
    } else {
        None
    }
}

proof fn lemma_digits_value_grows(d: Seq<char>, i: int)
    requires
        0 <= i <= d.len(),
        all_digits(d),
    ensures
        digits_value(d.take(i)) <= digits_value(d),
    decreases d.len() - i,
{
    if i < d.len() {
        lemma_digits_value_grows(d, i + 1);
        assert(d.take(i + 1).drop_last() =~= d.take(i));
    } else {
        assert(d.take(i) =~= d);
    }
}

/// Reads `s` as a `u16` (`str::parse::<u16>`).
pub fn parse_u16_exec(s: &str) -> (r: Option<u16>)
    ensures
        r == parse_u16(s@),
{
    let v = chars_of(s);
    let start: usize = if v.len() > 0 && v[0] == '+' {
        1
    } else {
        0
    };
    let ghost d = unsigned_digits(s@);
    assert(d =~= v@.skip(start as int));
    if start >= v.len() {
        return None;
    }
    let mut value: u32 = 0;
    let mut i = start;
    assert(d.take(0) =~= Seq::<char>::empty());
    while i < v.len()
        invariant
            start <= i <= v@.len(),
            d == unsigned_digits(s@),
            d == v@.skip(start as int),
            all_digits(d.take(i - start)),
            value as nat == digits_value(d.take(i - start)),
            value <= u16::MAX,
        decreases v@.len() - i,
    {
        let c = v[i];
        proof {
            assert(d.take(i - start + 1).drop_last() =~= d.take(i - start));
            assert(d.take(i - start + 1).last() == c);
        }
        if c < '0' || c > '9' {
            assert(!all_digits(d)) by {
                assert(d[i - start] == c);
            }
            return None;
        }
        let next: u32 = value * 10 + (c as u32 - '0' as u32);
        if next > 65535 {
            proof {
                if all_digits(d) {
                    lemma_digits_value_grows(d, i - start + 1);
                }
            }
            return None;
        }
        value = next;
        i += 1;
    }
    assert(d.take(i - start) =~= d);
    Some(value as u16)
}

/// A port setting's value once ANSI escape sequences are removed from it.
pub uninterp spec fn ansi_stripped(s: Seq<char>) -> Seq<char>;

/// `strip_ansi_escapes::strip_str`: the text without its ANSI escape
/// sequences. Trusted to return what the name `ansi_stripped` gives for the
/// text, a function of the text alone; nothing more of its result is stated.
#[verifier::external_body]
fn strip_ansi(s: &str) -> (r: String)
    ensures
        r@ == ansi_stripped(s@),
{
    strip_ansi_escapes::strip_str(s)
}

/// The port that the text of a setting names: the number it holds once
/// white space around it is removed, or 0 (any free port) when it holds no
/// `u16`.
pub open spec fn port_of(text: Seq<char>) -> u16 {
    match parse_u16(trim(text)) {
        Some(p) => p,
        None => 0,
    }
}

/// The port that the text of a setting names, 0 when it names none.
pub fn port_from_text(text: &str) -> (r: u16)
    ensures
        r == port_of(text@),
{
    let v = chars_of(text);
    let lo = trim_start_from(&v);
    let hi = trim_end_from(&v, lo);
    let mut t = String::new();
    let mut k = lo;
    while k < hi
        invariant
            lo <= k <= hi <= v@.len(),
            t@ == v@.subrange(lo as int, k as int),
        decreases hi - k,
    {
        crate::text::push_char(&mut t, v[k]);
        assert(t@ =~= v@.subrange(lo as int, k + 1));
        k += 1;
    }
    match parse_u16_exec(t.as_str()) {
        Some(p) => p,
        None => 0,
    }
}

/// The main server's port from its setting, if set: the setting without
/// its ANSI escape sequences, read as a port; 0 when unset or when it names
/// no port.
pub fn server_port(setting: Option<&str>) -> (r: u16)
    ensures
        r == match setting {
            Some(s) => port_of(ansi_stripped(s@)),
            None => 0,
        },
{
    match setting {
        Some(s) => {
            let cleaned = strip_ansi(s);
            port_from_text(cleaned.as_str())
        },
        None => 0,
    }
}

/// The preview proxy's port from its setting, if set; 0 when unset or when
/// it names no port.
pub fn proxy_port(setting: Option<&str>) -> (r: u16)
    ensures
        r == match setting {
            Some(s) => port_of(s@),
            None => 0,
        },
{
    match setting {
        Some(s) => port_from_text(s),
        None => 0,
    }
}

} // verus!
