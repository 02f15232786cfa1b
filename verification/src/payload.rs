//! The small JSON texts that the orchestrator stores on a card: the feedback
//! queued for an agent and the descriptions of failures.
//!
//! Each is a JSON object written compactly, its keys in sorted order as
//! `serde_json`'s map keeps them; its string values are quoted and escaped
//! by `serde_json`, whose escaping `json_string_text` states.
use vstd::prelude::*;
use crate::text::{decimal, append_decimal, chars_of, starts_with_exec, push_char};
use crate::api::hex_digit;

verus! {

/// How JSON writes one character inside a string: `"` and `\` behind a
/// backslash; backspace, tab, newline, form feed and carriage return as
/// `\b`, `\t`, `\n`, `\f`, `\r`; the other control characters below
/// U+0020 as `\u00` and two lower-case hexadecimal digits; any other
/// character as itself.
pub open spec fn json_escape_char(c: char) -> Seq<char> {
    if c == '"' {
        seq!['\\', '"']
    } else if c == '\\' {
        seq!['\\', '\\']
    } else if c == '\u{8}' {
        seq!['\\', 'b']
    } else if c == '\t' {
        seq!['\\', 't']
    } else if c == '\n' {
        seq!['\\', 'n']
    } else if c == '\u{c}' {
        seq!['\\', 'f']
    } else if c == '\r' {
        seq!['\\', 'r']
    } else if (c as int) < 0x20 {
        seq!['\\', 'u', '0', '0', hex_digit((c as nat) / 16), hex_digit((c as nat) % 16)]
    } else {
        seq![c]
    }
}

/// The characters of `s`, each as JSON writes it inside a string.
pub open spec fn json_escaped(s: Seq<char>) -> Seq<char>
    decreases s.len(),
{
    if s.len() == 0 {
        Seq::empty()
    } else {
        json_escape_char(s[0]) + json_escaped(s.drop_first())
    }
}

/// The JSON text of the string `s`: `s` between double quotes, each of its
/// characters escaped as `json_escape_char` says.
pub open spec fn json_string_text(s: Seq<char>) -> Seq<char> {
    seq!['"'] + json_escaped(s) + seq!['"']
}

/// `serde_json::Value::String`, displayed: the JSON text of a string. Trusted
/// to quote `s` and escape it as serde_json's escape table does
/// (`json_string_text`).
#[verifier::external_body]
pub(crate) fn json_string(s: &str) -> (r: String)
    ensures
        r@ == json_string_text(s@),
{
    serde_json::Value::String(s.to_owned()).to_string()
}

/// The text queued for an agent when its card's review asks for changes.
pub open spec fn feedback_text(feedback: Seq<char>) -> Seq<char> {
    "{\"feedback\":"@ + json_string_text(feedback) + "}"@
}

/// The JSON queued for an agent when its card's review asks for changes:
/// `{"feedback": <feedback>}`.
pub fn feedback_payload(feedback: &str) -> (r: String)
    ensures
        r@ == feedback_text(feedback@),
{
    String::from_str("{\"feedback\":").concat(json_string(feedback).as_str()).concat("}")
}

/// The error info of a phase that failed: its reason and turn count.
pub open spec fn failure_text(reason: Seq<char>, turns: u32) -> Seq<char> {
    "{\"reason\":"@ + json_string_text(reason) + ",\"turns\":"@ + decimal(turns as nat) + "}"@
}

/// The error info of a phase that failed: `{"reason": <reason>, "turns":
/// <turns>}`.
pub fn failure_info(reason: &str, turns: u32) -> (r: String)
    ensures
        r@ == failure_text(reason@, turns),
{
    let mut r = String::from_str("{\"reason\":").concat(json_string(reason).as_str()).concat(
        ",\"turns\":",
    );
    append_decimal(&mut r, turns as u128);
    r.append("}");
    r
}

/// The history line of a completed phase: its column, the session of its
/// last turn, and its turn count.
pub open spec fn history_text(phase: Seq<char>, turns: u32, session: Seq<char>) -> Seq<char> {
    "{\"phase\":"@ + json_string_text(phase) + ",\"session\":"@ + json_string_text(session)
        + ",\"turns\":"@ + decimal(turns as nat) + "}"@
}

/// The line appended to `.kanban-context/history.jsonl` when a phase
/// completes: `{"phase": <phase>, "session": <session>, "turns": <turns>}`.
pub fn history_line(phase: &str, turns: u32, session: &str) -> (r: String)
    ensures
        r@ == history_text(phase@, turns, session@),
{
    let mut r = String::from_str("{\"phase\":").concat(json_string(phase).as_str()).concat(
        ",\"session\":",
    ).concat(json_string(session).as_str()).concat(",\"turns\":");
    append_decimal(&mut r, turns as u128);
    r.append("}");
    r
}

/// The error info of a hook that failed: which hook, and its error.
pub open spec fn hook_failure_text(hook: Seq<char>, error: Seq<char>) -> Seq<char> {
    "{\"hook\":"@ + json_string_text(hook) + ",\"hook_error\":"@ + json_string_text(error) + "}"@
}

/// The error info of a hook that failed: `{"hook": <hook>, "hook_error":
/// <error>}`.
pub fn hook_failure_info(hook: &str, error: &str) -> (r: String)
    ensures
        r@ == hook_failure_text(hook@, error@),
{
    String::from_str("{\"hook\":").concat(json_string(hook).as_str()).concat(
        ",\"hook_error\":",
    ).concat(json_string(error).as_str()).concat("}")
}

/// The error info of a Jira transition that failed: its error, and the
/// transition.
pub open spec fn transition_failure_text(error: Seq<char>, transition: Seq<char>) -> Seq<char> {
    "{\"jira_transition_failed\":"@ + json_string_text(error) + ",\"transition\":"@
        + json_string_text(transition) + "}"@
}

/// The error info of a Jira transition that failed:
/// `{"jira_transition_failed": <error>, "transition": <transition>}`.
pub fn transition_failure_info(error: &str, transition: &str) -> (r: String)
    ensures
        r@ == transition_failure_text(error@, transition@),
{
    String::from_str("{\"jira_transition_failed\":").concat(json_string(error).as_str()).concat(
        ",\"transition\":",
    ).concat(json_string(transition).as_str()).concat("}")
}

/// The value of a lower-case hexadecimal digit.
pub open spec fn hex_value(c: char) -> Option<nat> {
    if '0' <= c && c <= '9' {
        Some((c as int - '0' as int) as nat)
    } else if 'a' <= c && c <= 'f' {
        Some((c as int - 'a' as int + 10) as nat)
    } else {
        None
    }
}

/// A control character that JSON writes in the `\u00XX` form (one without a
/// short escape).
pub open spec fn long_escaped(v: nat) -> bool {
    v < 0x20 && v != 8 && v != 9 && v != 10 && v != 12 && v != 13
}

/// The first character that the escaped text `e` stands for, and how many of
/// its characters it takes: an escape as `json_escape_char` writes one, or a
/// character that needs none; nothing for anything else.
pub open spec fn unescape_step(e: Seq<char>) -> Option<(char, int)> {
    if e.len() == 0 {
        None
    } else if e[0] == '\\' {
        if e.len() < 2 {
            None
        } else if e[1] == '"' {
            Some(('"', 2))
        } else if e[1] == '\\' {
            Some(('\\', 2))
        } else if e[1] == 'b' {
            Some(('\u{8}', 2))
        } else if e[1] == 't' {
            Some(('\t', 2))
        } else if e[1] == 'n' {
            Some(('\n', 2))
        } else if e[1] == 'f' {
            Some(('\u{c}', 2))
        } else if e[1] == 'r' {
            Some(('\r', 2))
        } else if e[1] == 'u' && e.len() >= 6 && e[2] == '0' && e[3] == '0' && (e[4] == '0' || e[4]
            == '1') && hex_value(e[5]) is Some && long_escaped(
            (if e[4] == '1' { 16nat } else { 0nat }) + hex_value(e[5])->0,
        ) {
            Some((((if e[4] == '1' { 16nat } else { 0nat }) + hex_value(e[5])->0) as char, 6))
        } else {
            None
        }
    } else if e[0] == '"' || (e[0] as int) < 0x20 {
        None
    } else {
        Some((e[0], 1))
    }
}

/// The text that the escaped text `e` (the inside of a JSON string as
/// `json_escaped` writes it) stands for; nothing when `e` is not such a text.
pub open spec fn json_unescape(e: Seq<char>) -> Option<Seq<char>>
    decreases e.len(),
{
    if e.len() == 0 {
        Some(Seq::empty())
    } else {
        match unescape_step(e) {
            Some((c, n)) => if 1 <= n && n <= e.len() {
                match json_unescape(e.skip(n)) {
                    Some(r) => Some(seq![c] + r),
                    None => None,
                }
            } else {
                None
            },
            None => None,
        }
    }
}

/// The feedback that a queued text carries, when it is a request for changes
/// as `feedback_text` writes it: `{"feedback":"`, the escaped feedback, `"}`.
pub open spec fn feedback_in(pending: Seq<char>) -> Option<Seq<char>> {
    let n = pending.len();
    if n >= 15 && pending.take(12) == "{\"feedback\":"@ && pending[12] == '"' && pending[n - 2]
        == '"' && pending[n - 1] == '}' {
        json_unescape(pending.subrange(13, n - 2))
    } else {
        None
    }
}

proof fn lemma_unescape_char(c: char, rest: Seq<char>)
    ensures
        unescape_step(json_escape_char(c) + rest) == Some((c, json_escape_char(c).len() as int)),
        (json_escape_char(c) + rest).skip(json_escape_char(c).len() as int) == rest,
        1 <= json_escape_char(c).len(),
{
    let e = json_escape_char(c) + rest;
    assert(e.skip(json_escape_char(c).len() as int) =~= rest);
    if c == '"' || c == '\\' || c == '\u{8}' || c == '\t' || c == '\n' || c == '\u{c}' || c
        == '\r' {
    } else if (c as int) < 0x20 {
        let v = c as nat;
        let hi = v / 16;
        let lo = v % 16;
        assert(hi == 0 || hi == 1);
        assert(hex_digit(hi) == if hi == 1 { '1' } else { '0' });
        assert(hex_value(hex_digit(lo)) == Some(lo));
        assert((if hex_digit(hi) == '1' { 16nat } else { 0nat }) + lo == v);
        assert(e[4] == hex_digit(hi));
        assert(e[5] == hex_digit(lo));
        assert((v as char) == c);
    } else {
    }
}

proof fn lemma_unescape_escaped(s: Seq<char>)
    ensures
        json_unescape(json_escaped(s)) == Some(s),
    decreases s.len(),
{
    if s.len() > 0 {
        let rest = json_escaped(s.drop_first());
        lemma_unescape_char(s[0], rest);
        lemma_unescape_escaped(s.drop_first());
        assert(seq![s[0]] + s.drop_first() =~= s);
    }
}

/// The feedback given with a request for changes is what is read back from
/// the text queued for the agent.
pub proof fn law_feedback_round_trip(fb: Seq<char>)
    ensures
        feedback_in(feedback_text(fb)) == Some(fb),
{
    reveal_strlit("{\"feedback\":");
    reveal_strlit("}");
    let p = feedback_text(fb);
    let esc = json_escaped(fb);
    let n = p.len();
    assert(p =~= "{\"feedback\":"@ + seq!['"'] + esc + seq!['"'] + "}"@);
    assert(p.take(12) =~= "{\"feedback\":"@);
    assert(p.subrange(13, n - 2) =~= esc);
    lemma_unescape_escaped(fb);
}

fn hex_value_exec(c: char) -> (r: Option<u32>)
    ensures
        match hex_value(c) {
            Some(v) => r == Some(v as u32),
            None => r is None,
        },
{
    if '0' <= c && c <= '9' {
        Some(c as u32 - '0' as u32)
    } else if 'a' <= c && c <= 'f' {
        Some(c as u32 - 'a' as u32 + 10)
    } else {
        None
    }
}

fn unescape_step_exec(v: &Vec<char>, i: usize, end: usize) -> (r: Option<(char, usize)>)
    requires
        i <= end <= v@.len(),
    ensures
        match unescape_step(v@.subrange(i as int, end as int)) {
            Some((c, n)) => r == Some((c, n as usize)),
            None => r is None,
        },
{
    let ghost e = v@.subrange(i as int, end as int);
    if i >= end {
        return None;
    }
    let c0 = v[i];
    assert(e[0] == c0);
    if c0 == '\\' {
        if end - i < 2 {
            return None;
        }
        let c1 = v[i + 1];
        assert(e[1] == c1);
        if c1 == '"' {
            Some(('"', 2))
        } else if c1 == '\\' {
            Some(('\\', 2))
        } else if c1 == 'b' {
            Some(('\u{8}', 2))
        } else if c1 == 't' {
            Some(('\t', 2))
        } else if c1 == 'n' {
            Some(('\n', 2))
        } else if c1 == 'f' {
            Some(('\u{c}', 2))
        } else if c1 == 'r' {
            Some(('\r', 2))
        } else if c1 == 'u' && end - i >= 6 && v[i + 2] == '0' && v[i + 3] == '0' && (v[i + 4]
            == '0' || v[i + 4] == '1') {
            assert(e[2] == v@[i + 2] && e[3] == v@[i + 3] && e[4] == v@[i + 4] && e[5] == v@[i
                + 5]);
            match hex_value_exec(v[i + 5]) {
                Some(lo) => {
                    let hi: u32 = if v[i + 4] == '1' {
                        16
                    } else {
                        0
                    };
                    let val = hi + lo;
                    if val < 0x20 && val != 8 && val != 9 && val != 10 && val != 12 && val != 13 {
                        let b = val as u8;
                        let ch = b as char;
                        assert(ch == ((hi as nat + lo as nat) as char));
                        Some((ch, 6))
                    } else {
                        None
                    }
                },
                None => None,
            }
        } else {
            None
        }
    } else if c0 == '"' || ' ' > c0 {
        None
    } else {
        Some((c0, 1))
    }
}

/// The feedback that a queued text carries, if it is a request for changes.
pub fn feedback_of(pending: &str) -> (r: Option<String>)
    ensures
        match r {
            Some(f) => feedback_in(pending@) == Some(f@),
            None => feedback_in(pending@) is None,
        },
{
    let v = chars_of(pending);
    let open = chars_of("{\"feedback\":");
    proof {
        reveal_strlit("{\"feedback\":");
    }
    let n = v.len();
    if n < 15 || !starts_with_exec(&v, &open) || v[12] != '"' || v[n - 2] != '"' || v[n - 1] != '}' {
        return None;
    }
    let end = n - 2;
    let ghost e = v@.subrange(13, end as int);
    assert(v@.take(12) == open@);
    let mut out = String::new();
    let mut i: usize = 13;
    while i < end
        invariant
            13 <= i <= end,
            end + 2 == v@.len(),
            feedback_in(pending@) == json_unescape(e),
            e == v@.subrange(13, end as int),
            json_unescape(e) == match json_unescape(v@.subrange(i as int, end as int)) {
                Some(r) => Some(out@ + r),
                None => None,
            },
        decreases end - i,
    {
        let ghost cur = v@.subrange(i as int, end as int);
        let ghost prev = out@;
        match unescape_step_exec(&v, i, end) {
            Some((c, k)) => {
                proof {
                    assert(cur.skip(k as int) =~= v@.subrange(i + k, end as int));
                }
                push_char(&mut out, c);
                i = i + k;
                proof {
                    match json_unescape(v@.subrange(i as int, end as int)) {
                        Some(r) => {
                            assert(prev + (seq![c] + r) =~= out@ + r);
                        },
                        None => {},
                    }
                }
            },
            None => {
                return None;
            },
        }
    }
    assert(v@.subrange(i as int, end as int) =~= Seq::<char>::empty());
    Some(out)
}

/// What a phase shows its agent of the text queued for its card: the
/// feedback of a request for changes (for `review_feedback.md`), or else the
/// text itself (for `reconcile.md`).
pub fn queued_texts(pending: Option<&str>) -> (r: (Option<String>, Option<String>))
    ensures
        match pending {
            None => r.0 is None && r.1 is None,
            Some(p) => match feedback_in(p@) {
                Some(f) => r.0 is None && (r.1 matches Some(x) && x@ == f),
                None => (r.0 matches Some(x) && x@ == p@) && r.1 is None,
            },
        },
{
    match pending {
        None => (None, None),
        Some(p) => match feedback_of(p) {
            Some(f) => (None, Some(f)),
            None => (Some(String::from_str(p)), None),
        },
    }
}

} // verus!
