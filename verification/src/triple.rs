//! The Protobuf envelopes of the Dubbo3/Triple protocol, with their wire
//! codec: `TripleRequestWrapper` carries the serialized arguments of one
//! call, `TripleResponseWrapper` the serialized result,
//! `TripleExceptionWrapper` a remote exception.
//!
//! Field tags follow the envelope schema: field 1 the serialization name,
//! field 2 the payload(s), field 3 the type name(s). The decoder accepts
//! messages whose fields stand in tag order, which is the order every
//! encoder here produces.

use vstd::prelude::*;
use vstd::utf8::{decode_utf8, encode_utf8, encode_utf8_decode_utf8, encode_utf8_valid_utf8,
    valid_utf8};

use crate::proto::{enc_record, enc_records, lemma_enc_records_first, lemma_enc_records_snoc,
    lemma_record_round_trip, lemma_records_round_trip, parse_record, parse_records, push_record,
    sp_record, sp_records};
use crate::text::{string_from_utf8, strings_of_payloads};

verus! {

/// The mathematical value of a `TripleRequestWrapper`.
#[verifier::ext_equal]
pub ghost struct TripleRequestView {
    pub serialize_type: Seq<char>,
    pub args: Seq<Seq<u8>>,
    pub arg_types: Seq<Seq<char>>,
}

/// The request envelope: the serialization kind (canonically
/// `"fastjson2"`), one byte payload per argument, and the argument type
/// names.
pub struct TripleRequestWrapper {
    pub serialize_type: String,
    pub args: Vec<Vec<u8>>,
    pub arg_types: Vec<String>,
}

impl View for TripleRequestWrapper {
    type V = TripleRequestView;

    open spec fn view(&self) -> TripleRequestView {
        TripleRequestView {
            serialize_type: self.serialize_type@,
            args: Seq::new(self.args@.len(), |i: int| self.args@[i]@),
            arg_types: Seq::new(self.arg_types@.len(), |i: int| self.arg_types@[i]@),
        }
    }
}

/// The mathematical value of a `TripleResponseWrapper`.
#[verifier::ext_equal]
pub ghost struct TripleResponseView {
    pub serialize_type: Seq<char>,
    pub data: Seq<u8>,
    pub res_type: Seq<char>,
}

/// The response envelope: the serialization kind, the result payload,
/// and the result type name.
pub struct TripleResponseWrapper {
    pub serialize_type: String,
    pub data: Vec<u8>,
    pub res_type: String,
}

impl View for TripleResponseWrapper {
    type V = TripleResponseView;

    open spec fn view(&self) -> TripleResponseView {
        TripleResponseView {
            serialize_type: self.serialize_type@,
            data: self.data@,
            res_type: self.res_type@,
        }
    }
}

/// The envelope of a remote exception: language, serialization kind,
/// exception class name, and the serialized exception itself.
pub struct TripleExceptionWrapper {
    pub language: String,
    pub serialization: String,
    pub class_name: String,
    pub data: Vec<u8>,
}

/// The wire bytes of a request envelope: an omitted-when-empty string
/// field 1, one record per argument payload, one record per type name.
pub open spec fn spec_encode_request(v: TripleRequestView) -> Seq<u8> {
    (if v.serialize_type.len() == 0 {
        Seq::<u8>::empty()
    } else {
        enc_record(10u8, encode_utf8(v.serialize_type))
    }) + enc_records(18u8, v.args) + enc_records(
        26u8,
        v.arg_types.map(|i: int, t: Seq<char>| encode_utf8(t)),
    )
}

/// Parses the wire bytes of a request envelope, in tag order, requiring
/// the message to be consumed exactly and the string fields to be valid
/// UTF-8.
pub open spec fn spec_decode_request(b: Seq<u8>) -> Option<TripleRequestView> {
    let f1 = sp_record(10u8, b);
    let stb = match f1 {
        Some(pk) => pk.0,
        None => Seq::<u8>::empty(),
    };
    let k1 = match f1 {
        Some(pk) => pk.1,
        None => 0int,
    };
    if !valid_utf8(stb) {
        None
    } else {
        let b1 = b.skip(k1);
        let ar = sp_records(18u8, b1);
        let b2 = b1.skip(ar.1);
        let tr = sp_records(26u8, b2);
        let b3 = b2.skip(tr.1);
        if b3.len() == 0 && crate::text::all_valid_utf8(tr.0) {
            Some(
                TripleRequestView {
                    serialize_type: decode_utf8(stb),
                    args: ar.0,
                    arg_types: tr.0.map(|i: int, t: Seq<u8>| decode_utf8(t)),
                },
            )
        } else {
            None
        }
    }
}

/// The wire bytes of a response envelope: three omitted-when-empty
/// fields.
pub open spec fn spec_encode_response(v: TripleResponseView) -> Seq<u8> {
    (if v.serialize_type.len() == 0 {
        Seq::<u8>::empty()
    } else {
        enc_record(10u8, encode_utf8(v.serialize_type))
    }) + (if v.data.len() == 0 {
        Seq::<u8>::empty()
    } else {
        enc_record(18u8, v.data)
    }) + (if v.res_type.len() == 0 {
        Seq::<u8>::empty()
    } else {
        enc_record(26u8, encode_utf8(v.res_type))
    })
}

/// Parses the wire bytes of a response envelope, in tag order.
pub open spec fn spec_decode_response(b: Seq<u8>) -> Option<TripleResponseView> {
    let f1 = sp_record(10u8, b);
    let stb = match f1 {
        Some(pk) => pk.0,
        None => Seq::<u8>::empty(),
    };
    let k1 = match f1 {
        Some(pk) => pk.1,
        None => 0int,
    };
    let b1 = b.skip(k1);
    let f2 = sp_record(18u8, b1);
    let data = match f2 {
        Some(pk) => pk.0,
        None => Seq::<u8>::empty(),
    };
    let k2 = match f2 {
        Some(pk) => pk.1,
        None => 0int,
    };
    let b2 = b1.skip(k2);
    let f3 = sp_record(26u8, b2);
    let tnb = match f3 {
        Some(pk) => pk.0,
        None => Seq::<u8>::empty(),
    };
    let k3 = match f3 {
        Some(pk) => pk.1,
        None => 0int,
    };
    let b3 = b2.skip(k3);
    if b3.len() == 0 && valid_utf8(stb) && valid_utf8(tnb) {
        Some(
            TripleResponseView {
                serialize_type: decode_utf8(stb),
                data: data,
                res_type: decode_utf8(tnb),
            },
        )
    } else {
        None
    }
}

/// Law: decoding an encoded request envelope gives back the envelope,
/// field for field, for every envelope.
pub proof fn lemma_request_round_trip(v: TripleRequestView)
    ensures
        spec_decode_request(spec_encode_request(v)) == Some(v),
{
    let tb = v.arg_types.map(|i: int, t: Seq<char>| encode_utf8(t));
    let f1: Seq<u8> = if v.serialize_type.len() == 0 {
        Seq::<u8>::empty()
    } else {
        enc_record(10u8, encode_utf8(v.serialize_type))
    };
    let aa = enc_records(18u8, v.args);
    let tt = enc_records(26u8, tb);
    let b = spec_encode_request(v);
    assert(b =~= f1 + (aa + tt));
    lemma_enc_records_first(18u8, v.args);
    lemma_enc_records_first(26u8, tb);

    let k1: int;
    if v.serialize_type.len() == 0 {
        assert(b =~= aa + tt);
        if b.len() > 0 {
            if aa.len() > 0 {
                assert(b[0] == 18u8);
            } else {
                assert(b =~= tt);
                assert(b[0] == 26u8);
            }
        }
        assert(sp_record(10u8, b) is None);
        k1 = 0;
        assert(decode_utf8(Seq::<u8>::empty()) =~= Seq::<char>::empty());
        assert(decode_utf8(Seq::<u8>::empty()) == v.serialize_type);
    } else {
        lemma_record_round_trip(10u8, encode_utf8(v.serialize_type), aa + tt);
        encode_utf8_valid_utf8(v.serialize_type);
        encode_utf8_decode_utf8(v.serialize_type);
        k1 = enc_record(10u8, encode_utf8(v.serialize_type)).len() as int;
        assert(b =~= enc_record(10u8, encode_utf8(v.serialize_type)) + (aa + tt));
    }
    assert(b.skip(k1) =~= aa + tt);

    lemma_records_round_trip(18u8, v.args, tt);
    assert((aa + tt).skip(aa.len() as int) =~= tt);
    assert(tt + Seq::<u8>::empty() =~= tt);
    lemma_records_round_trip(26u8, tb, Seq::<u8>::empty());
    assert(tt.skip(tt.len() as int) =~= Seq::<u8>::empty());

    assert forall|i: int| 0 <= i < tb.len() implies valid_utf8(#[trigger] tb[i]) by {
        encode_utf8_valid_utf8(v.arg_types[i]);
    }
    let decoded_types = tb.map(|i: int, t: Seq<u8>| decode_utf8(t));
    assert forall|i: int| 0 <= i < tb.len() implies decoded_types[i] == v.arg_types[i] by {
        encode_utf8_decode_utf8(v.arg_types[i]);
    }
    assert(decoded_types =~= v.arg_types);

    let r = spec_decode_request(b);
    assert(r is Some);
    assert(r->Some_0 =~= v);
}

/// Law: decoding an encoded response envelope gives back the envelope,
/// field for field, for every envelope.
#[verifier::rlimit(100)]
#[verifier::spinoff_prover]
pub proof fn lemma_response_round_trip(v: TripleResponseView)
    ensures
        spec_decode_response(spec_encode_response(v)) == Some(v),
{
    let f1: Seq<u8> = if v.serialize_type.len() == 0 {
        Seq::<u8>::empty()
    } else {
        enc_record(10u8, encode_utf8(v.serialize_type))
    };
    let dd: Seq<u8> = if v.data.len() == 0 {
        Seq::<u8>::empty()
    } else {
        enc_record(18u8, v.data)
    };
    let tt: Seq<u8> = if v.res_type.len() == 0 {
        Seq::<u8>::empty()
    } else {
        enc_record(26u8, encode_utf8(v.res_type))
    };
    let b = spec_encode_response(v);
    assert(b =~= f1 + (dd + tt));

    let k1: int;
    if v.serialize_type.len() == 0 {
        assert(b =~= dd + tt);
        if b.len() > 0 {
            if dd.len() > 0 {
                assert(b[0] == 18u8);
            } else {
                assert(b =~= tt);
                assert(b[0] == 26u8);
            }
        }
        assert(sp_record(10u8, b) is None);
        k1 = 0;
        assert(decode_utf8(Seq::<u8>::empty()) =~= Seq::<char>::empty());
    } else {
        lemma_record_round_trip(10u8, encode_utf8(v.serialize_type), dd + tt);
        encode_utf8_valid_utf8(v.serialize_type);
        encode_utf8_decode_utf8(v.serialize_type);
        k1 = enc_record(10u8, encode_utf8(v.serialize_type)).len() as int;
        assert(b =~= enc_record(10u8, encode_utf8(v.serialize_type)) + (dd + tt));
    }
    let b1 = b.skip(k1);
    assert(b1 =~= dd + tt);

    let k2: int;
    if v.data.len() == 0 {
        assert(b1 =~= tt);
        if b1.len() > 0 {
            assert(b1[0] == 26u8);
        }
        assert(sp_record(18u8, b1) is None);
        k2 = 0;
    } else {
        lemma_record_round_trip(18u8, v.data, tt);
        k2 = enc_record(18u8, v.data).len() as int;
        assert(b1 =~= enc_record(18u8, v.data) + tt);
    }
    let b2 = b1.skip(k2);
    assert(b2 =~= tt);

    let k3: int;
    if v.res_type.len() == 0 {
        assert(b2.len() == 0);
        assert(sp_record(26u8, b2) is None);
        k3 = 0;
        assert(decode_utf8(Seq::<u8>::empty()) =~= Seq::<char>::empty());
    } else {
        lemma_record_round_trip(26u8, encode_utf8(v.res_type), Seq::<u8>::empty());
        encode_utf8_valid_utf8(v.res_type);
        encode_utf8_decode_utf8(v.res_type);
        k3 = enc_record(26u8, encode_utf8(v.res_type)).len() as int;
        assert(b2 =~= enc_record(26u8, encode_utf8(v.res_type)) + Seq::<u8>::empty());
    }
    assert(b2.skip(k3).len() == 0);

    let r = spec_decode_response(b);
    assert(r is Some);
    assert(r->Some_0 =~= v);
}

/// Encodes a request envelope to its wire bytes.
pub fn encode_triple_request(w: &TripleRequestWrapper) -> (r: Vec<u8>)
    ensures
        r@ == spec_encode_request(w@),
{
    let mut out: Vec<u8> = Vec::new();
    if !w.serialize_type.as_str().is_empty() {
        push_record(&mut out, 10, w.serialize_type.as_str().as_bytes());
    }
    let ghost head = out@;
    proof {
        assert(head =~= (if w@.serialize_type.len() == 0 {
            Seq::<u8>::empty()
        } else {
            enc_record(10u8, encode_utf8(w@.serialize_type))
        }));
    }
    let mut i: usize = 0;
    while i < w.args.len()
        invariant
            i <= w.args@.len(),
            out@ == head + enc_records(18u8, w@.args.take(i as int)),
        decreases w.args@.len() - i,
    {
        push_record(&mut out, 18, w.args[i].as_slice());
        proof {
            lemma_enc_records_snoc(18u8, w@.args.take(i as int), w@.args[i as int]);
            assert(w@.args.take(i as int + 1) =~= w@.args.take(i as int).push(w@.args[i as int]));
            assert(out@ =~= head + enc_records(18u8, w@.args.take(i as int + 1)));
        }
        i += 1;
    }
    proof {
        assert(w@.args.take(w.args@.len() as int) =~= w@.args);
    }
    let ghost mid = out@;
    let ghost tb = w@.arg_types.map(|j: int, t: Seq<char>| encode_utf8(t));
    let mut i: usize = 0;
    while i < w.arg_types.len()
        invariant
            i <= w.arg_types@.len(),
            out@ == mid + enc_records(26u8, tb.take(i as int)),
            mid == head + enc_records(18u8, w@.args),
            tb == w@.arg_types.map(|j: int, t: Seq<char>| encode_utf8(t)),
        decreases w.arg_types@.len() - i,
    {
        push_record(&mut out, 26, w.arg_types[i].as_str().as_bytes());
        proof {
            lemma_enc_records_snoc(26u8, tb.take(i as int), tb[i as int]);
            assert(tb.take(i as int + 1) =~= tb.take(i as int).push(tb[i as int]));
            assert(out@ =~= mid + enc_records(26u8, tb.take(i as int + 1)));
        }
        i += 1;
    }
    proof {
        assert(tb.take(w.arg_types@.len() as int) =~= tb);
        assert(out@ =~= spec_encode_request(w@));
    }
    out
}

/// Decodes a request envelope from its wire bytes; mirrors
/// [`spec_decode_request`].
pub fn decode_triple_request(b: &[u8]) -> (r: Option<TripleRequestWrapper>)
    ensures
        r matches Some(w) ==> spec_decode_request(b@) == Some(w@),
        r is None ==> spec_decode_request(b@) is None,
{
    proof {
        assert(b@.skip(0) =~= b@);
    }
    let mut pos: usize = 0;
    let mut serialize_type = String::new();
    match parse_record(b, 0, 10) {
        Some((s, l, k)) => {
            let blen = b.len();
            proof {
                assert(s + l <= blen);
            }
            let payload = vstd::slice::slice_to_vec(vstd::slice::slice_subrange(b, s, s + l));
            match string_from_utf8(payload) {
                Some(st) => {
                    serialize_type = st;
                    pos = k;
                },
                None => {
                    return None;
                },
            }
        },
        None => {
            proof {
                assert(valid_utf8(Seq::<u8>::empty())) by {
                    encode_utf8_valid_utf8(Seq::<char>::empty());
                    assert(encode_utf8(Seq::<char>::empty()) =~= Seq::<u8>::empty());
                }
                assert(decode_utf8(Seq::<u8>::empty()) =~= Seq::<char>::empty());
            }
        },
    }
    let blen_all = b.len();
    proof {
        assert(b@.len() == blen_all);
    }
    let (args, used_a) = parse_records(b, pos, 18);
    let pos2 = pos + used_a;
    proof {
        assert(b@.skip(pos as int).skip(sp_records(18u8, b@.skip(pos as int)).1) =~= b@.skip(
            pos2 as int,
        ));
    }
    let (typ_payloads, used_t) = parse_records(b, pos2, 26);
    proof {
        assert(pos2 + used_t <= blen_all);
    }
    let pos3 = pos2 + used_t;
    proof {
        assert(b@.skip(pos2 as int).skip(sp_records(26u8, b@.skip(pos2 as int)).1) =~= b@.skip(
            pos3 as int,
        ));
    }
    proof {
        let f1s = sp_record(10u8, b@);
        let k1s: int = match f1s {
            Some(pk) => pk.1,
            None => 0int,
        };
        assert(k1s == pos as int);
        let b1 = b@.skip(k1s);
        let ar = sp_records(18u8, b1);
        assert(ar.1 == used_a as int);
        let b2 = b1.skip(ar.1);
        assert(b2 =~= b@.skip(pos2 as int));
        let tr = sp_records(26u8, b2);
        assert(tr.1 == used_t as int);
        let b3 = b2.skip(tr.1);
        assert(b3 =~= b@.skip(pos3 as int));
        assert(b3.len() == b@.len() - pos3 as int);
    }
    if pos3 != b.len() {
        return None;
    }
    match strings_of_payloads(&typ_payloads) {
        Some(arg_types) => {
            let w = TripleRequestWrapper { serialize_type, args, arg_types };
            proof {
                let sd = spec_decode_request(b@);
                let tr0 = sp_records(26u8, b@.skip(pos2 as int)).0;
                assert(w@.arg_types =~= tr0.map(|i: int, t: Seq<u8>| decode_utf8(t)));
                assert(sd is Some);
                assert(sd->Some_0 =~= w@);
            }
            Some(w)
        },
        None => {
            proof {
                let trp = sp_records(26u8, b@.skip(pos2 as int));
                let i = choose|i: int|
                    0 <= i < typ_payloads@.len() && !valid_utf8(typ_payloads@[i]@);
                assert(trp.0[i] == typ_payloads@[i]@);
                assert(!valid_utf8(trp.0[i]));
                assert(!crate::text::all_valid_utf8(trp.0));
                assert(spec_decode_request(b@) is None);
            }
            return None;
        },
    }
}

/// Encodes a response envelope to its wire bytes.
pub fn encode_triple_response(w: &TripleResponseWrapper) -> (r: Vec<u8>)
    ensures
        r@ == spec_encode_response(w@),
{
    let mut out: Vec<u8> = Vec::new();
    if !w.serialize_type.as_str().is_empty() {
        push_record(&mut out, 10, w.serialize_type.as_str().as_bytes());
    }
    if w.data.len() > 0 {
        push_record(&mut out, 18, w.data.as_slice());
    }
    if !w.res_type.as_str().is_empty() {
        push_record(&mut out, 26, w.res_type.as_str().as_bytes());
    }
    proof {
        assert(out@ =~= spec_encode_response(w@));
    }
    out
}

/// Decodes a response envelope from its wire bytes; mirrors
/// [`spec_decode_response`].
#[verifier::rlimit(100)]
#[verifier::spinoff_prover]
pub fn decode_triple_response(b: &[u8]) -> (r: Option<TripleResponseWrapper>)
    ensures
        r matches Some(w) ==> spec_decode_response(b@) == Some(w@),
        r is None ==> spec_decode_response(b@) is None,
{
    proof {
        assert(b@.skip(0) =~= b@);
        assert(valid_utf8(Seq::<u8>::empty())) by {
            encode_utf8_valid_utf8(Seq::<char>::empty());
            assert(encode_utf8(Seq::<char>::empty()) =~= Seq::<u8>::empty());
        }
        assert(decode_utf8(Seq::<u8>::empty()) =~= Seq::<char>::empty());
    }
    let mut pos: usize = 0;
    let mut serialize_type = String::new();
    match parse_record(b, 0, 10) {
        Some((s, l, k)) => {
            let blen = b.len();
            proof {
                assert(s + l <= blen);
            }
            let payload = vstd::slice::slice_to_vec(vstd::slice::slice_subrange(b, s, s + l));
            match string_from_utf8(payload) {
                Some(st) => {
                    serialize_type = st;
                    pos = k;
                },
                None => {
                    return None;
                },
            }
        },
        None => {},
    }
    let mut data: Vec<u8> = Vec::new();
    let ghost pos1 = pos as int;
    match parse_record(b, pos, 18) {
        Some((s, l, k)) => {
            let blen = b.len();
            proof {
                assert(s + l <= blen);
            }
            data = vstd::slice::slice_to_vec(vstd::slice::slice_subrange(b, s, s + l));
            pos = pos + k;
        },
        None => {},
    }
    proof {
        assert(b@.skip(pos1).skip(pos as int - pos1) =~= b@.skip(pos as int));
    }
    let mut res_type = String::new();
    let ghost pos2 = pos as int;
    match parse_record(b, pos, 26) {
        Some((s, l, k)) => {
            let blen = b.len();
            proof {
                assert(s + l <= blen);
            }
            let payload = vstd::slice::slice_to_vec(vstd::slice::slice_subrange(b, s, s + l));
            match string_from_utf8(payload) {
                Some(tn) => {
                    res_type = tn;
                    pos = pos + k;
                },
                None => {
                    return None;
                },
            }
        },
        None => {},
    }
    proof {
        assert(b@.skip(pos2).skip(pos as int - pos2) =~= b@.skip(pos as int));
    }
    if pos != b.len() {
        return None;
    }
    let w = TripleResponseWrapper { serialize_type, data, res_type };
    proof {
        let sd = spec_decode_response(b@);
        assert(sd is Some);
        assert(sd->Some_0 =~= w@);
    }
    Some(w)
}

impl TripleRequestWrapper {
    /// Builds the request envelope for a list of serialized arguments,
    /// with the canonical serialization kind.
    pub fn get_request(strs: Vec<String>) -> (r: Self)
        ensures
            r@.serialize_type == "fastjson2"@,
            r@.args.len() == strs@.len(),
            forall|i: int| 0 <= i < strs@.len() ==> r@.args[i] == encode_utf8(strs@[i as int]@),
            r@.arg_types.len() == 1,
            r@.arg_types[0] == "org.apache.dubbo.springboot.demo.ReqDto"@,
    {
        let mut args: Vec<Vec<u8>> = Vec::new();
        let mut i: usize = 0;
        while i < strs.len()
            invariant
                i <= strs@.len(),
                args@.len() == i,
                forall|j: int| 0 <= j < i ==> args@[j]@ == encode_utf8(strs@[j]@),
            decreases strs@.len() - i,
        {
            args.push(vstd::slice::slice_to_vec(strs[i].as_str().as_bytes()));
            i += 1;
        }
        let mut arg_types: Vec<String> = Vec::new();
        arg_types.push("org.apache.dubbo.springboot.demo.ReqDto".to_owned());
        TripleRequestWrapper { serialize_type: "fastjson2".to_owned(), args, arg_types }
    }

    /// The argument payloads as strings; callers must know the payloads
    /// are valid UTF-8 (as every payload built by [`Self::get_request`]
    /// is).
    pub fn get_req(&self) -> (r: Vec<String>)
        requires
            forall|i: int| 0 <= i < self@.args.len() ==> valid_utf8(#[trigger] self@.args[i]),
        ensures
            r@.len() == self@.args.len(),
            forall|i: int| 0 <= i < self@.args.len() ==> r@[i]@ == decode_utf8(
                #[trigger] self@.args[i],
            ),
    {
        match strings_of_payloads(&self.args) {
            Some(v) => v,
            None => {
                proof {
                    let i = choose|i: int|
                        0 <= i < self.args@.len() && !valid_utf8(self.args@[i]@);
                    assert(self@.args[i] == self.args@[i]@);
                    assert(false);
                }
                Vec::new()
            },
        }
    }

    /// The argument payloads as strings, or `None` when some payload is
    /// not valid UTF-8.
    pub fn try_get_req(&self) -> (r: Option<Vec<String>>)
        ensures
            r matches Some(v) ==> v@.len() == self@.args.len() && (forall|i: int|
                0 <= i < self@.args.len() ==> valid_utf8(#[trigger] self@.args[i]) && v@[i]@
                    == decode_utf8(self@.args[i])),
            r is None ==> exists|i: int|
                0 <= i < self@.args.len() && !valid_utf8(#[trigger] self@.args[i]),
    {
        let r = strings_of_payloads(&self.args);
        proof {
            if r is None {
                let i = choose|i: int| 0 <= i < self.args@.len() && !valid_utf8(self.args@[i]@);
                assert(self@.args[i] == self.args@[i]@);
                assert(!valid_utf8(self@.args[i]));
            }
        }
        r
    }
}

impl TripleResponseWrapper {
    /// Builds the response envelope carrying one serialized result.
    pub fn form(data: String) -> (r: Self)
        ensures
            r@.serialize_type == "fastjson2"@,
            r@.data == encode_utf8(data@),
            r@.res_type == Seq::<char>::empty(),
    {
        let bytes = vstd::slice::slice_to_vec(data.as_str().as_bytes());
        TripleResponseWrapper {
            serialize_type: "fastjson2".to_owned(),
            data: bytes,
            res_type: String::new(),
        }
    }
}

} // verus!
