//! The JSON body codec: decodes a body into a list of serialized
//! argument strings, and encodes such a list into body bytes.
//!
//! A body that begins with `[` is a JSON array of strings (how
//! multi-argument calls are carried). Any other body is one argument:
//! already-quoted JSON text is taken as it stands, anything else is
//! wrapped in quotes. A one-element list encodes to its sole element
//! verbatim; a longer list encodes to the JSON array text.

use vstd::prelude::*;
use vstd::string::StringExecFns;
use vstd::utf8::{decode_utf8, encode_utf8, encode_utf8_decode_utf8, encode_utf8_valid_utf8,
    valid_utf8};

use crate::error::FusenError;
use crate::frame::Frame;
use crate::text::string_from_utf8;

verus! {

/// The string list a `Vec<String>` stands for.
pub open spec fn strs_view(v: Vec<String>) -> Seq<Seq<char>> {
    Seq::new(v@.len(), |i: int| v@[i]@)
}

/// What `serde_json::to_string` returns for a list of strings: a
/// function of the list alone.
pub uninterp spec fn json_list_text(l: Seq<Seq<char>>) -> Seq<char>;

/// What `serde_json::from_slice::<Vec<String>>` returns for given body
/// bytes: a function of the bytes alone; `None` stands for a parse
/// error.
pub uninterp spec fn json_parse_list(b: Seq<u8>) -> Option<Seq<Seq<char>>>;

/// Relies on `serde_json::to_string` on a `Vec<String>`: the text
/// depends on the list alone, and serializing a vector of strings cannot
/// fail (its documentation reserves failure for erring `Serialize` impls
/// and maps with non-string keys).
#[verifier::external_body]
fn to_json_list_text(l: &Vec<String>) -> (r: String)
    ensures
        r@ == json_list_text(strs_view(*l)),
{
    serde_json::to_string(l).expect("serializing a list of strings does not fail")
}

/// Relies on `serde_json::from_slice::<Vec<String>>`: the parse depends
/// on the input bytes alone.
#[verifier::external_body]
fn parse_json_list(d: &[u8]) -> (r: Option<Vec<String>>)
    ensures
        r matches Some(v) ==> json_parse_list(d@) == Some(strs_view(v)),
        r is None ==> json_parse_list(d@) is None,
{
    serde_json::from_slice::<Vec<String>>(d).ok()
}

/// The bytes the JSON codec emits for a non-empty argument list: the
/// sole element verbatim for a singleton, the JSON array text otherwise.
pub open spec fn spec_json_encode(l: Seq<Seq<char>>) -> Seq<u8>
    recommends
        l.len() >= 1,
{
    if l.len() == 1 {
        encode_utf8(l[0])
    } else {
        encode_utf8(json_list_text(l))
    }
}

/// The argument list the JSON codec reads from body bytes: a JSON array
/// when the body opens with `[` (byte 91); otherwise one argument,
/// quote-wrapped (byte 34) unless already quoted.
pub open spec fn spec_json_decode(d: Seq<u8>) -> Option<Seq<Seq<char>>> {
    if d.len() > 0 && d[0] == 91u8 {
        json_parse_list(d)
    } else if !valid_utf8(d) {
        None
    } else if d.len() > 0 && d[0] == 34u8 {
        Some(seq![decode_utf8(d)])
    } else {
        Some(seq![seq!['"'] + decode_utf8(d) + seq!['"']])
    }
}

/// The JSON body codec.
pub struct JsonBodyCodec {}

impl JsonBodyCodec {
    pub fn new() -> (r: Self) {
        JsonBodyCodec {  }
    }

    /// Decodes a body into the argument list: the first frame must be a
    /// data frame, whose bytes are read per [`spec_json_decode`]. Every
    /// failure is an `Info` error.
    pub fn decode(&self, body: &Vec<Frame>) -> (r: Result<Vec<String>, FusenError>)
        ensures
            (body@.len() == 0 || !body@[0].is_data()) ==> r is Err,
            body@.len() > 0 && body@[0].is_data() ==> (match spec_json_decode(
                body@[0].spec_data(),
            ) {
                Some(l) => r matches Ok(v) && strs_view(v) == l,
                None => r is Err,
            }),
            r matches Err(e) ==> e is Info,
    {
        if body.len() == 0 {
            return Err(FusenError::Info("receive frame err".to_owned()));
        }
        match &body[0] {
            Frame::Trailers(_) => Err(FusenError::Info("receive frame err".to_owned())),
            Frame::Data(d) => {
                if d.len() > 0 && d[0] == 91 {
                    match parse_json_list(d.as_slice()) {
                        Some(v) => {
                            proof {
                                assert(strs_view(v) == json_parse_list(d@)->Some_0);
                            }
                            Ok(v)
                        },
                        None => Err(FusenError::Info("invalid json list".to_owned())),
                    }
                } else {
                    match string_from_utf8(vstd::slice::slice_to_vec(d.as_slice())) {
                        None => Err(FusenError::Info("invalid utf-8 body".to_owned())),
                        Some(s) => {
                            if d.len() > 0 && d[0] == 34 {
                                let mut v: Vec<String> = Vec::new();
                                v.push(s);
                                proof {
                                    assert(strs_view(v) =~= seq![decode_utf8(d@)]);
                                }
                                Ok(v)
                            } else {
                                proof {
                                    reveal_strlit("\"");
                                    assert("\""@ =~= seq!['"']);
                                }
                                let mut q: String = "\"".to_owned();
                                q.append(s.as_str());
                                q.append("\"");
                                let mut v: Vec<String> = Vec::new();
                                v.push(q);
                                proof {
                                    assert(q@ =~= seq!['"'] + decode_utf8(d@) + seq!['"']);
                                    assert(strs_view(v) =~= seq![
                                        seq!['"'] + decode_utf8(d@) + seq!['"'],
                                    ]);
                                }
                                Ok(v)
                            }
                        },
                    }
                }
            },
        }
    }

    /// Encodes a non-empty argument list into body bytes per
    /// [`spec_json_encode`]; an empty list is refused with an `Info`
    /// error.
    pub fn encode(&self, res: &Vec<String>) -> (r: Result<Vec<u8>, FusenError>)
        ensures
            res@.len() == 0 <==> r is Err,
            r matches Ok(b) ==> b@ == spec_json_encode(strs_view(*res)),
            r matches Err(e) ==> e is Info,
    {
        if res.len() == 0 {
            return Err(FusenError::Info("encode err res is empty".to_owned()));
        }
        if res.len() == 1 {
            let b = vstd::slice::slice_to_vec(res[0].as_str().as_bytes());
            proof {
                assert(strs_view(*res)[0] == res@[0]@);
            }
            Ok(b)
        } else {
            let text = to_json_list_text(res);
            let b = vstd::slice::slice_to_vec(text.as_str().as_bytes());
            Ok(b)
        }
    }
}

/// Law: a JSON encode/decode round trip returns the argument list, for
/// every singleton list whose element opens with a quote (already-quoted
/// JSON text). A singleton whose element opens otherwise is re-quoted by
/// the decoder, and the array text of a longer list is parsed back by
/// the JSON library, which stands outside this model.
pub proof fn lemma_json_round_trip_quoted_singleton(l: Seq<Seq<char>>)
    requires
        l.len() == 1,
        l[0].len() > 0,
        l[0][0] == '"',
    ensures
        spec_json_decode(spec_json_encode(l)) == Some(l),
{
    let d = encode_utf8(l[0]);
    encode_utf8_valid_utf8(l[0]);
    encode_utf8_decode_utf8(l[0]);
    crate::text::lemma_encode_utf8_ascii_first(l[0]);
    assert('"' as u32 == 34);
    assert(d[0] == 34u8);
    assert(spec_json_decode(d) == Some(seq![decode_utf8(d)]));
    assert(seq![decode_utf8(d)] =~= l);
}

} // verus!
