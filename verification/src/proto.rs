//! The Protobuf wire layer used by the gRPC-style protocol: base-128
//! varints, length-delimited records (wire type 2), and the 5-byte gRPC
//! body framing (compression flag plus big-endian length).
//!
//! Encoders and decoders are specified against each other: the parsing
//! functions are proved to invert the encoding functions.

use vstd::prelude::*;
use vstd::arithmetic::div_mod::lemma_fundamental_div_mod;

verus! {

/// Base-128 varint encoding, least-significant group first.
pub open spec fn enc_varint(n: nat) -> Seq<u8>
    decreases n,
{
    if n < 128 {
        seq![n as u8]
    } else {
        seq![(n % 128 + 128) as u8] + enc_varint(n / 128)
    }
}

/// Parses one varint from the front of `b`: the value and the count of
/// bytes consumed.
pub open spec fn sp_varint(b: Seq<u8>) -> Option<(nat, int)>
    decreases b.len(),
{
    if b.len() == 0 {
        None
    } else if b[0] < 128 {
        Some((b[0] as nat, 1int))
    } else {
        match sp_varint(b.drop_first()) {
            Some(vk) => Some((((b[0] - 128) + 128 * vk.0) as nat, vk.1 + 1)),
            None => None,
        }
    }
}

/// One length-delimited record: tag byte, varint length, payload.
pub open spec fn enc_record(tag: u8, p: Seq<u8>) -> Seq<u8> {
    seq![tag] + enc_varint(p.len()) + p
}

/// Parses one length-delimited record with the given tag byte from the
/// front of `b`: the payload and the count of bytes consumed.
pub open spec fn sp_record(tag: u8, b: Seq<u8>) -> Option<(Seq<u8>, int)> {
    if b.len() == 0 || b[0] != tag {
        None
    } else {
        match sp_varint(b.drop_first()) {
            Some(vk) => {
                let rest = b.skip(1 + vk.1);
                if rest.len() >= vk.0 {
                    Some((rest.take(vk.0 as int), 1 + vk.1 + vk.0))
                } else {
                    None
                }
            },
            None => None,
        }
    }
}

/// The concatenated records of a repeated field, in order.
pub open spec fn enc_records(tag: u8, items: Seq<Seq<u8>>) -> Seq<u8>
    decreases items.len(),
{
    if items.len() == 0 {
        Seq::empty()
    } else {
        enc_record(tag, items[0]) + enc_records(tag, items.drop_first())
    }
}

/// Parses as many records with the given tag as stand at the front of
/// `b`: the payloads and the count of bytes consumed.
pub open spec fn sp_records(tag: u8, b: Seq<u8>) -> (Seq<Seq<u8>>, int)
    decreases b.len(),
{
    match sp_record(tag, b) {
        Some(pk) => {
            if 0 < pk.1 <= b.len() {
                let rec = sp_records(tag, b.skip(pk.1));
                (seq![pk.0] + rec.0, pk.1 + rec.1)
            } else {
                (seq![pk.0], pk.1)
            }
        },
        None => (Seq::empty(), 0int),
    }
}

pub proof fn lemma_sp_varint_bounds(b: Seq<u8>)
    ensures
        sp_varint(b) matches Some(vk) ==> 1 <= vk.1 <= b.len(),
    decreases b.len(),
{
    if b.len() > 0 && b[0] >= 128 {
        lemma_sp_varint_bounds(b.drop_first());
    }
}

pub proof fn lemma_sp_record_bounds(tag: u8, b: Seq<u8>)
    ensures
        sp_record(tag, b) matches Some(pk) ==> 2 <= pk.1 <= b.len(),
{
    if b.len() > 0 && b[0] == tag {
        lemma_sp_varint_bounds(b.drop_first());
    }
}

pub proof fn lemma_enc_varint_len(n: nat)
    ensures
        enc_varint(n).len() >= 1,
    decreases n,
{
    if n >= 128 {
        lemma_enc_varint_len(n / 128);
    }
}

/// Parsing a varint from its encoding followed by anything gives back the
/// value and consumes exactly the encoding.
pub proof fn lemma_varint_round_trip(n: nat, rest: Seq<u8>)
    ensures
        sp_varint(enc_varint(n) + rest) == Some((n, enc_varint(n).len() as int)),
    decreases n,
{
    let b = enc_varint(n) + rest;
    if n < 128 {
        assert(b[0] == n as u8);
        assert(sp_varint(b) == Some((n, 1int)));
    } else {
        let byte = (n % 128 + 128) as u8;
        assert(b[0] == byte);
        assert(byte >= 128);
        lemma_varint_round_trip(n / 128, rest);
        assert(b.drop_first() =~= enc_varint(n / 128) + rest);
        lemma_fundamental_div_mod(n as int, 128);
        assert((byte - 128) + 128 * (n / 128) == n);
        lemma_enc_varint_len(n / 128);
        assert(enc_varint(n).len() == 1 + enc_varint(n / 128).len());
        assert(sp_varint(b) == Some((n, enc_varint(n).len() as int)));
    }
}

/// Parsing a record from its encoding followed by anything gives back the
/// payload and consumes exactly the encoding.
pub proof fn lemma_record_round_trip(tag: u8, p: Seq<u8>, rest: Seq<u8>)
    ensures
        sp_record(tag, enc_record(tag, p) + rest) == Some((
            p,
            enc_record(tag, p).len() as int,
        )),
{
    let b = enc_record(tag, p) + rest;
    assert(b[0] == tag);
    assert(b.drop_first() =~= enc_varint(p.len()) + (p + rest));
    lemma_varint_round_trip(p.len(), p + rest);
    let k = enc_varint(p.len()).len() as int;
    assert(sp_varint(b.drop_first()) == Some((p.len(), k)));
    assert(b.skip(1 + k) =~= p + rest);
    assert((p + rest).len() >= p.len());
    assert((p + rest).take(p.len() as int) =~= p);
    assert(enc_record(tag, p).len() as int == 1 + k + p.len());
}

/// Parsing records from their concatenated encodings, followed by bytes
/// that do not open another record of the same tag, gives back exactly the
/// payload list.
pub proof fn lemma_records_round_trip(tag: u8, items: Seq<Seq<u8>>, rest: Seq<u8>)
    requires
        rest.len() == 0 || rest[0] != tag,
    ensures
        sp_records(tag, enc_records(tag, items) + rest).0 == items,
        sp_records(tag, enc_records(tag, items) + rest).1 == enc_records(tag, items).len() as int,
    decreases items.len(),
{
    let b = enc_records(tag, items) + rest;
    if items.len() == 0 {
        assert(b =~= rest);
        assert(sp_record(tag, b) is None);
        assert(sp_records(tag, b).0 =~= items);
    } else {
        let tail = enc_records(tag, items.drop_first()) + rest;
        assert(b =~= enc_record(tag, items[0]) + tail);
        lemma_record_round_trip(tag, items[0], tail);
        let k = enc_record(tag, items[0]).len() as int;
        lemma_sp_record_bounds(tag, b);
        assert(0 < k <= b.len());
        assert(b.skip(k) =~= tail);
        lemma_records_round_trip(tag, items.drop_first(), rest);
        assert(sp_records(tag, b).0 =~= seq![items[0]] + items.drop_first());
        assert(seq![items[0]] + items.drop_first() =~= items);
        assert(enc_records(tag, items).len() == k + enc_records(tag, items.drop_first()).len());
    }
}

/// Appending one more item extends the encoding by one record.
pub proof fn lemma_enc_records_snoc(tag: u8, items: Seq<Seq<u8>>, x: Seq<u8>)
    ensures
        enc_records(tag, items.push(x)) == enc_records(tag, items) + enc_record(tag, x),
    decreases items.len(),
{
    if items.len() == 0 {
        assert(items.push(x)[0] == x);
        assert(items.push(x).drop_first() =~= Seq::<Seq<u8>>::empty());
        assert(enc_records(tag, items.push(x)) == enc_record(tag, x) + enc_records(
            tag,
            items.push(x).drop_first(),
        ));
        assert(enc_records(tag, items.push(x).drop_first()).len() == 0);
        assert(enc_record(tag, x) + enc_records(tag, items.push(x).drop_first()) =~= enc_record(
            tag,
            x,
        ));
        assert(enc_records(tag, items) + enc_record(tag, x) =~= enc_record(tag, x));
    } else {
        assert(items.push(x)[0] =~= items[0]);
        assert(items.push(x).drop_first() =~= items.drop_first().push(x));
        lemma_enc_records_snoc(tag, items.drop_first(), x);
        assert(enc_records(tag, items.push(x)) =~= enc_records(tag, items) + enc_record(
            tag,
            x,
        ));
    }
}

/// A non-empty record list encodes to bytes that open with the tag.
pub proof fn lemma_enc_records_first(tag: u8, items: Seq<Seq<u8>>)
    ensures
        items.len() == 0 ==> enc_records(tag, items).len() == 0,
        items.len() > 0 ==> enc_records(tag, items).len() > 0 && enc_records(tag, items)[0] == tag,
{
    if items.len() > 0 {
        assert(enc_record(tag, items[0])[0] == tag);
    }
}

/// Appends the varint encoding of `n` to `out`.
pub fn push_varint(out: &mut Vec<u8>, n: usize)
    ensures
        final(out)@ == old(out)@ + enc_varint(n as nat),
{
    let ghost orig = out@;
    let ghost whole = n as nat;
    let mut m: usize = n;
    while m >= 128
        invariant
            orig + enc_varint(whole) == out@ + enc_varint(m as nat),
        decreases m,
    {
        let byte: u8 = (m % 128) as u8 + 128;
        out.push(byte);
        proof {
            assert(enc_varint(m as nat) =~= seq![byte] + enc_varint((m / 128) as nat));
            assert(out@ + enc_varint((m / 128) as nat) =~= orig + enc_varint(whole));
        }
        m = m / 128;
    }
    out.push(m as u8);
    proof {
        assert(enc_varint(m as nat) =~= seq![m as u8]);
        assert(out@ =~= orig + enc_varint(whole));
    }
}

/// Appends one length-delimited record to `out`.
pub fn push_record(out: &mut Vec<u8>, tag: u8, payload: &[u8])
    ensures
        final(out)@ == old(out)@ + enc_record(tag, payload@),
{
    let ghost orig = out@;
    out.push(tag);
    push_varint(out, payload.len());
    out.extend_from_slice(payload);
    proof {
        assert(out@ =~= orig + enc_record(tag, payload@));
    }
}

/// Parses one varint at `pos`. Mirrors [`sp_varint`]; values that do not
/// fit in 64 bits are rejected, exactly where the specification yields a
/// value of at least 2^64.
pub fn parse_varint(b: &[u8], pos: usize) -> (r: Option<(u64, usize)>)
    requires
        pos <= b@.len(),
    ensures
        ({
            let s = sp_varint(b@.skip(pos as int));
            &&& s is None ==> r is None
            &&& (s matches Some(vk) ==> {
                &&& vk.0 >= 0x10000000000000000 ==> r is None
                &&& vk.0 < 0x10000000000000000 ==> (r matches Some(rv) && rv.0 as nat == vk.0
                    && rv.1 as int == vk.1 && pos + rv.1 <= b@.len())
            })
        }),
    decreases b@.len() - pos,
{
    proof {
        lemma_sp_varint_bounds(b@.skip(pos as int));
    }
    if pos == b.len() {
        return None;
    }
    let byte = b[pos];
    proof {
        assert(b@.skip(pos as int)[0] == b@[pos as int]);
    }
    if byte < 128 {
        Some((byte as u64, 1))
    } else {
        proof {
            assert(b@.skip(pos as int).drop_first() =~= b@.skip(pos as int + 1));
        }
        match parse_varint(b, pos + 1) {
            None => None,
            Some((v, k)) => {
                if v < 0x200000000000000 {
                    Some(((byte - 128) as u64 + 128 * v, k + 1))
                } else {
                    None
                }
            },
        }
    }
}

/// Parses one record with the given tag at `pos`. Returns the payload's
/// start index and length and the count of bytes consumed. Mirrors
/// [`sp_record`].
pub fn parse_record(b: &[u8], pos: usize, tag: u8) -> (r: Option<(usize, usize, usize)>)
    requires
        pos <= b@.len(),
    ensures
        ({
            let s = sp_record(tag, b@.skip(pos as int));
            &&& s is None ==> r is None
            &&& (s matches Some(pk) ==> (r matches Some(t) && {
                &&& t.0 == pos + t.2 - t.1
                &&& t.0 + t.1 <= b@.len()
                &&& b@.subrange(t.0 as int, t.0 + t.1) == pk.0
                &&& t.2 as int == pk.1
                &&& t.2 >= 2
                &&& pos + t.2 <= b@.len()
            }))
        }),
{
    let ghost s0 = b@.skip(pos as int);
    if pos == b.len() {
        return None;
    }
    if b[pos] != tag {
        proof {
            assert(s0[0] == b@[pos as int]);
        }
        return None;
    }
    proof {
        assert(s0[0] == b@[pos as int]);
        assert(s0.drop_first() =~= b@.skip(pos as int + 1));
        lemma_sp_varint_bounds(s0.drop_first());
    }
    match parse_varint(b, pos + 1) {
        None => {
            proof {
                // Either no varint parses, or its value is at least 2^64 and
                // so exceeds every possible remaining length.
                if sp_varint(s0.drop_first()) is Some {
                    let vk = sp_varint(s0.drop_first())->Some_0;
                    assert(vk.0 >= 0x10000000000000000);
                    assert(s0.skip(1 + vk.1).len() < vk.0);
                }
            }
            None
        },
        Some((v, k)) => {
            let rem = b.len() - pos - 1 - k;
            proof {
                assert(s0.skip(1 + k as int) =~= b@.skip(pos as int + 1 + k as int));
                assert(s0.skip(1 + k as int).len() == rem as int);
            }
            if (rem as u64) < v {
                None
            } else {
                let plen = v as usize;
                let start = pos + 1 + k;
                proof {
                    assert(b@.subrange(start as int, start as int + plen as int) =~= s0.skip(
                        1 + k as int,
                    ).take(plen as int));
                }
                Some((start, plen, 1 + k + plen))
            }
        },
    }
}

/// Parses every record with the given tag standing at `pos`, in order.
/// Mirrors [`sp_records`]; the second result is the count of bytes
/// consumed.
pub fn parse_records(b: &[u8], pos: usize, tag: u8) -> (r: (Vec<Vec<u8>>, usize))
    requires
        pos <= b@.len(),
    ensures
        ({
            let s = sp_records(tag, b@.skip(pos as int));
            &&& Seq::new(r.0@.len() as nat, |i: int| r.0@[i]@) == s.0
            &&& r.1 as int == s.1
            &&& pos + r.1 <= b@.len()
        }),
{
    let mut items: Vec<Vec<u8>> = Vec::new();
    let mut cur: usize = pos;
    let ghost s_all = sp_records(tag, b@.skip(pos as int));
    loop
        invariant_except_break
            pos <= cur <= b@.len(),
            s_all.0 == Seq::new(items@.len() as nat, |i: int| items@[i]@) + sp_records(
                tag,
                b@.skip(cur as int),
            ).0,
            s_all.1 == (cur - pos) + sp_records(tag, b@.skip(cur as int)).1,
            s_all == sp_records(tag, b@.skip(pos as int)),
        ensures
            pos <= cur <= b@.len(),
            s_all.0 == Seq::new(items@.len() as nat, |i: int| items@[i]@),
            s_all.1 == cur - pos,
            s_all == sp_records(tag, b@.skip(pos as int)),
        decreases b@.len() - cur,
    {
        proof {
            lemma_sp_record_bounds(tag, b@.skip(cur as int));
        }
        match parse_record(b, cur, tag) {
            None => {
                proof {
                    assert(sp_records(tag, b@.skip(cur as int)).0 =~= Seq::<Seq<u8>>::empty());
                }
                break ;
            },
            Some((start, plen, consumed)) => {
                let blen = b.len();
                proof {
                    assert(start + plen <= blen);
                }
                let payload = vstd::slice::slice_to_vec(
                    vstd::slice::slice_subrange(b, start, start + plen),
                );
                let ghost items_old = Seq::new(items@.len() as nat, |i: int| items@[i]@);
                let ghost pk = sp_record(tag, b@.skip(cur as int))->Some_0;
                items.push(payload);
                proof {
                    assert(b@.skip(cur as int).skip(pk.1) =~= b@.skip(cur as int + pk.1));
                    assert(Seq::new(items@.len() as nat, |i: int| items@[i]@) =~= items_old.push(
                        pk.0,
                    ));
                    assert(items_old + (seq![pk.0] + sp_records(
                        tag,
                        b@.skip(cur as int + pk.1),
                    ).0) =~= items_old.push(pk.0) + sp_records(tag, b@.skip(cur as int + pk.1)).0);
                }
                cur = cur + consumed;
            },
        }
    }
    (items, cur - pos)
}

/// The 4-byte big-endian length used by the gRPC body prefix.
pub open spec fn be32(n: nat) -> Seq<u8> {
    seq![
        (n / 0x1000000 % 256) as u8,
        (n / 0x10000 % 256) as u8,
        (n / 0x100 % 256) as u8,
        (n % 256) as u8,
    ]
}

/// The standard gRPC body framing: one byte compression flag (0), the
/// payload length in big-endian, then the payload.
pub open spec fn spec_grpc_frame(p: Seq<u8>) -> Seq<u8> {
    seq![0u8] + be32(p.len()) + p
}

/// Parses a gRPC-framed body: the flag must be 0 and the length must
/// match the remaining bytes exactly.
pub open spec fn sp_grpc_frame(b: Seq<u8>) -> Option<Seq<u8>> {
    if b.len() >= 5 && b[0] == 0 && b[1] * 0x1000000 + b[2] * 0x10000 + b[3] * 0x100 + b[4] == b.len()
        - 5 {
        Some(b.skip(5))
    } else {
        None
    }
}

proof fn lemma_be32_recompose(n: nat)
    requires
        n < 0x100000000,
    ensures
        (n / 0x1000000 % 256) * 0x1000000 + (n / 0x10000 % 256) * 0x10000 + (n / 0x100 % 256)
            * 0x100 + n % 256 == n,
{
    let x = n as u32;
    assert((x as nat / 0x1000000 % 256) * 0x1000000 + (x as nat / 0x10000 % 256) * 0x10000 + (
    x as nat / 0x100 % 256) * 0x100 + x as nat % 256 == x as nat) by (bit_vector);
}

/// Framing then parsing gives back the payload.
pub proof fn lemma_grpc_frame_round_trip(p: Seq<u8>)
    requires
        p.len() < 0x100000000,
    ensures
        sp_grpc_frame(spec_grpc_frame(p)) == Some(p),
{
    let b = spec_grpc_frame(p);
    lemma_be32_recompose(p.len());
    assert(b.len() == 5 + p.len());
    assert(b[0] == 0);
    assert(b[1] == (p.len() / 0x1000000 % 256) as u8);
    assert(b.skip(5) =~= p);
}

/// Frames a payload for a gRPC body. Fails only when the payload cannot
/// be described by a 4-byte length.
pub fn encode_grpc_frame(p: &[u8]) -> (r: Option<Vec<u8>>)
    ensures
        p@.len() < 0x100000000 ==> (r matches Some(v) && v@ == spec_grpc_frame(p@)),
        p@.len() >= 0x100000000 ==> r is None,
{
    if p.len() as u64 >= 0x100000000u64 {
        return None;
    }
    let n = p.len();
    let mut out: Vec<u8> = Vec::new();
    out.push(0);
    out.push((n / 0x1000000 % 256) as u8);
    out.push((n / 0x10000 % 256) as u8);
    out.push((n / 0x100 % 256) as u8);
    out.push((n % 256) as u8);
    out.extend_from_slice(p);
    proof {
        assert(out@ =~= spec_grpc_frame(p@));
    }
    Some(out)
}

/// Unframes a gRPC body. Mirrors [`sp_grpc_frame`].
pub fn decode_grpc_frame(b: &[u8]) -> (r: Option<Vec<u8>>)
    ensures
        r matches Some(v) ==> sp_grpc_frame(b@) == Some(v@),
        r is None ==> sp_grpc_frame(b@) is None,
{
    if b.len() < 5 {
        return None;
    }
    if b[0] != 0 {
        return None;
    }
    let n: usize = b[1] as usize * 0x1000000 + b[2] as usize * 0x10000 + b[3] as usize * 0x100
        + b[4] as usize;
    if n != b.len() - 5 {
        return None;
    }
    let payload = vstd::slice::slice_to_vec(vstd::slice::slice_subrange(b, 5, b.len()));
    proof {
        assert(payload@ =~= b@.skip(5));
    }
    Some(payload)
}

} // verus!
