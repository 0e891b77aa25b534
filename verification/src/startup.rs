//! What the program computes from its start-up input: the chat port the user
//! typed and the session id.

use vstd::prelude::*;
use vstd::utf8::encode_utf8;

verus! {

/// Whether `b` is an ASCII decimal digit.
pub open spec fn is_digit(b: u8) -> bool {
    48 <= b <= 57
}

/// The number written by a string of decimal digits.
pub open spec fn digits_value(s: Seq<u8>) -> nat
    decreases s.len(),
{
    if s.len() == 0 {
        0
    } else {
        digits_value(s.drop_last()) * 10 + (s.last() - 48) as nat
    }
}

/// The digits of a port number: the text after an optional leading `+`.
pub open spec fn port_digits(s: Seq<u8>) -> Seq<u8> {
    if s.len() > 0 && s[0] == 43 {
        s.drop_first()
    } else {
        s
    }
}

/// The port that a text names: one or more decimal digits, optionally after
/// a `+`, whose value fits in 16 bits.
pub open spec fn spec_parse_port(s: Seq<u8>) -> Option<u16> {
    let d = port_digits(s);
    if d.len() > 0 && (forall|i: int| 0 <= i < d.len() ==> is_digit(#[trigger] d[i]))
        && digits_value(d) <= 0xffff {
        Some(digits_value(d) as u16)
    } else {
        None
    }
}

/// Reads a TCP port number typed by the user, as `u16`'s `from_str` does.
pub fn parse_port(text: &str) -> (r: Option<u16>)
    ensures
        r == spec_parse_port(encode_utf8(text@)),
{
    let bytes = text.as_bytes();
    let n = bytes.len();
    let start: usize = if n > 0 && bytes[0] == 43 {
        1
    } else {
        0
    };
    let ghost d = port_digits(bytes@);
    assert(d =~= bytes@.subrange(start as int, n as int));
    if start == n {
        return None;
    }
    let mut acc: u32 = 0;
    let mut i: usize = start;
    while i < n
        invariant
            n == bytes@.len(),
            start <= i <= n,
            d == bytes@.subrange(start as int, n as int),
            d == port_digits(bytes@),
            bytes@ == encode_utf8(text@),
            forall|j: int| 0 <= j < i - start ==> is_digit(#[trigger] d[j]),
            acc as nat == if digits_value(d.take(i - start)) < 65536 {
                digits_value(d.take(i - start))
            } else {
                65536
            },
        decreases n - i,
    {
        let b = bytes[i];
        if b < 48 || b > 57 {
            assert(!is_digit(d[i - start]));
            return None;
        }
        proof {
            assert(d.take(i - start + 1).drop_last() =~= d.take(i - start));
        }
        acc = acc * 10 + (b - 48) as u32;
        if acc > 65536 {
            acc = 65536;
        }
        i = i + 1;
    }
    assert(d.take(n - start) =~= d);
    if acc > 65535 {
        None
    } else {
        Some(acc as u16)
    }
}

/// The session id made from a clock reading and the process id.
pub fn mix_session_id(nanos: u64, pid: u64) -> (r: u64)
    ensures
        r == nanos ^ pid,
{
    nanos ^ pid
}

} // verus!
