//! What the control plane reads and returns.
use vstd::prelude::*;
use crate::text::push_char;

verus! {

/// The body of a request for changes.
#[derive(Debug, Clone)]
pub struct RequestChangesBody {
    pub feedback: String,
}

/// One task event as the control plane returns it.
#[derive(Debug, Clone)]
pub struct TaskEventResponse {
    pub id: String,
    pub event_type: String,
    pub from_phase: Option<String>,
    pub to_phase: Option<String>,
    pub actor: String,
    pub payload: Option<String>,
    pub ts: String,
}

/// The lower-case hexadecimal digit for `n`.
pub open spec fn hex_digit(n: nat) -> char {
    if n < 10 {
        (48 + n) as char
    } else {
        (87 + n) as char
    }
}

/// Bytes in lower-case hexadecimal, two digits each.
pub open spec fn hex(bs: Seq<u8>) -> Seq<char>
    decreases bs.len(),
{
    if bs.len() == 0 {
        Seq::empty()
    } else {
        hex(bs.drop_last()) + seq![hex_digit((bs.last() / 16) as nat), hex_digit((bs.last() % 16) as nat)]
    }
}

/// Sixteen bytes as a UUID is displayed: hexadecimal in groups of 8, 4, 4,
/// 4 and 12 digits joined by hyphens.
pub open spec fn uuid_text(bs: Seq<u8>) -> Seq<char> {
    hex(bs.subrange(0, 4)) + seq!['-'] + hex(bs.subrange(4, 6)) + seq!['-'] + hex(bs.subrange(6, 8))
        + seq!['-'] + hex(bs.subrange(8, 10)) + seq!['-'] + hex(bs.subrange(10, 16))
}

fn hex_char(n: u8) -> (c: char)
    requires
        n < 16,
    ensures
        c == hex_digit(n as nat),
{
    if n < 10 {
        (48u8 + n) as char
    } else {
        (87u8 + n) as char
    }
}

fn push_hex(out: &mut String, bytes: &Vec<u8>, from: usize, to: usize)
    requires
        from <= to <= bytes@.len(),
    ensures
        final(out)@ == old(out)@ + hex(bytes@.subrange(from as int, to as int)),
{
    let mut k = from;
    assert(bytes@.subrange(from as int, from as int) =~= Seq::<u8>::empty());
    assert(old(out)@ + hex(Seq::<u8>::empty()) =~= old(out)@);
    while k < to
        invariant
            from <= k <= to <= bytes@.len(),
            out@ == old(out)@ + hex(bytes@.subrange(from as int, k as int)),
        decreases to - k,
    {
        let b = bytes[k];
        push_char(out, hex_char(b / 16));
        push_char(out, hex_char(b % 16));
        proof {
            assert(bytes@.subrange(from as int, k + 1).drop_last() =~= bytes@.subrange(from as int, k as int));
            assert(out@ =~= old(out)@ + hex(bytes@.subrange(from as int, k + 1)));
        }
        k += 1;
    }
}

/// The id of a stored event as the control plane shows it: the UUID that its
/// sixteen bytes make (`Uuid::from_slice`, displayed), or `unknown` when it
/// has any other length.
pub fn event_id_text(bytes: &Vec<u8>) -> (r: String)
    ensures
        r@ == if bytes@.len() == 16 {
            uuid_text(bytes@)
        } else {
            "unknown"@
        },
{
    if bytes.len() != 16 {
        return String::from_str("unknown");
    }
    let mut v = String::new();
    push_hex(&mut v, bytes, 0, 4);
    push_char(&mut v, '-');
    push_hex(&mut v, bytes, 4, 6);
    push_char(&mut v, '-');
    push_hex(&mut v, bytes, 6, 8);
    push_char(&mut v, '-');
    push_hex(&mut v, bytes, 8, 10);
    push_char(&mut v, '-');
    push_hex(&mut v, bytes, 10, 16);
    assert(v@ =~= uuid_text(bytes@));
    v
}

} // verus!
