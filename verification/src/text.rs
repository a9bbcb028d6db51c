//! Text helpers shared by the codecs: byte-to-string conversion and
//! decimal rendering of numeric codes.

use vstd::prelude::*;
use vstd::string::StringExecFns;
use vstd::utf8::{decode_utf8, encode_scalar, encode_utf8, valid_utf8};

verus! {

/// An ASCII character at the front of a string stands at the front of
/// its UTF-8 encoding, as a single byte.
pub proof fn lemma_encode_utf8_ascii_first(s: Seq<char>)
    requires
        s.len() > 0,
        (s[0] as u32) <= 0x7F,
    ensures
        encode_utf8(s).len() > 0,
        encode_utf8(s)[0] == (s[0] as u32) as u8,
{
    let v = s[0] as u32;
    assert(encode_utf8(s) == encode_scalar(v) + encode_utf8(s.drop_first()));
    assert(v & 0x7F == v) by (bit_vector)
        requires
            v <= 0x7F,
    ;
    assert(encode_scalar(v) =~= seq![(v & 0x7F) as u8]);
}

/// Relies on `String::from_utf8`: it succeeds exactly on valid UTF-8
/// input, and then returns the string whose UTF-8 bytes are the input.
#[verifier::external_body]
pub(crate) fn string_from_utf8(b: Vec<u8>) -> (r: Option<String>)
    ensures
        r is Some <==> valid_utf8(b@),
        r matches Some(s) ==> s@ == decode_utf8(b@),
{
    String::from_utf8(b).ok()
}

/// Converts each byte payload to a string; fails exactly when some
/// payload is not valid UTF-8.
pub fn strings_of_payloads(ps: &Vec<Vec<u8>>) -> (r: Option<Vec<String>>)
    ensures
        r matches Some(v) ==> v@.len() == ps@.len() && (forall|i: int|
            0 <= i < ps@.len() ==> valid_utf8(#[trigger] ps@[i]@) && v@[i]@ == decode_utf8(
                ps@[i]@,
            )),
        r is None ==> exists|i: int| 0 <= i < ps@.len() && !valid_utf8(#[trigger] ps@[i]@),
{
    let mut out: Vec<String> = Vec::new();
    let mut i: usize = 0;
    while i < ps.len()
        invariant
            i <= ps@.len(),
            out@.len() == i,
            forall|j: int|
                0 <= j < i ==> valid_utf8(#[trigger] ps@[j]@) && out@[j]@ == decode_utf8(ps@[j]@),
        decreases ps@.len() - i,
    {
        let p = vstd::slice::slice_to_vec(ps[i].as_slice());
        match string_from_utf8(p) {
            Some(s) => out.push(s),
            None => {
                return None;
            },
        }
        i += 1;
    }
    Some(out)
}

/// Every payload in the list is valid UTF-8.
pub open spec fn all_valid_utf8(s: Seq<Seq<u8>>) -> bool {
    forall|i: int| 0 <= i < s.len() ==> valid_utf8(#[trigger] s[i])
}

/// The character of one decimal digit.
pub open spec fn digit_char(d: nat) -> char {
    ((48 + d) as u8) as char
}

/// The decimal rendering of `n`, most significant digit first, without
/// leading zeros (a single `'0'` for zero).
pub open spec fn dec_digits(n: nat) -> Seq<char>
    decreases n,
{
    if n < 10 {
        seq![digit_char(n)]
    } else {
        dec_digits(n / 10) + seq![digit_char(n % 10)]
    }
}

fn digit_str(d: u8) -> (r: &'static str)
    requires
        d < 10,
    ensures
        r@ == seq![digit_char(d as nat)],
{
    proof {
        reveal_strlit("0");
        reveal_strlit("1");
        reveal_strlit("2");
        reveal_strlit("3");
        reveal_strlit("4");
        reveal_strlit("5");
        reveal_strlit("6");
        reveal_strlit("7");
        reveal_strlit("8");
        reveal_strlit("9");
    }
    match d {
        0 => "0",
        1 => "1",
        2 => "2",
        3 => "3",
        4 => "4",
        5 => "5",
        6 => "6",
        7 => "7",
        8 => "8",
        _ => "9",
    }
}

/// Renders a status code in decimal.
pub fn u16_to_string(n: u16) -> (r: String)
    ensures
        r@ == dec_digits(n as nat),
    decreases n,
{
    if n < 10 {
        String::from_str(digit_str(n as u8))
    } else {
        let mut s = u16_to_string(n / 10);
        s.append(digit_str((n % 10) as u8));
        s
    }
}

} // verus!
