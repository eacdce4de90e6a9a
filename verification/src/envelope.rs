//! The payload envelope: the outer message around every payload on the
//! fabric. It carries a string-to-string header map, used for trace-context
//! propagation, and the typed payload packed as a self-describing field: a
//! type name and the payload's encoded bytes.
//!
//! The envelope round trip is proved here: decoding an encoded envelope
//! yields the same headers and the same packed payload.

use vstd::prelude::*;

use vstd::utf8::encode_utf8;

use crate::codec::{
    encode_msg_fld, encode_str_fld, lemma_msg_fld_roundtrip, lemma_str_fld_roundtrip,
    read_msg_fld, read_str_fld, spec_msg_fld, spec_parse_msg_fld, spec_parse_str_fld,
    spec_str_fld, str_ok,
};

verus! {

/// A typed payload: the name of its message type, and its encoded bytes.
#[derive(Debug, Clone, PartialEq)]
pub struct PackedPayload {
    pub type_url: String,
    pub value: Vec<u8>,
}

/// Ghost model of a packed payload.
pub ghost struct PackedPayloadV {
    pub type_url: Seq<char>,
    pub value: Seq<u8>,
}

impl View for PackedPayload {
    type V = PackedPayloadV;

    open spec fn view(&self) -> PackedPayloadV {
        PackedPayloadV { type_url: self.type_url@, value: self.value@ }
    }
}

/// An envelope: trace headers and one packed payload.
#[derive(Debug, Clone, PartialEq)]
pub struct Envelope {
    pub headers: Vec<(String, String)>,
    pub payload: PackedPayload,
}

/// Ghost model of an envelope.
pub ghost struct EnvelopeV {
    pub headers: Seq<(Seq<char>, Seq<char>)>,
    pub payload: PackedPayloadV,
}

impl View for Envelope {
    type V = EnvelopeV;

    open spec fn view(&self) -> EnvelopeV {
        EnvelopeV {
            headers: self.headers@.map_values(|p: (String, String)| (p.0@, p.1@)),
            payload: self.payload@,
        }
    }
}

impl Envelope {
    /// Wrap a payload with no headers yet.
    pub fn new(payload: PackedPayload) -> (r: Self)
        ensures
            r@.headers == Seq::<(Seq<char>, Seq<char>)>::empty(),
            r@.payload == payload@,
    {
        let r = Envelope { headers: Vec::new(), payload };
        proof {
            assert(r@.headers =~= Seq::<(Seq<char>, Seq<char>)>::empty());
        }
        r
    }

    /// Append one header entry; the trace propagator writes each key once.
    pub fn set_header(&mut self, key: String, value: String)
        ensures
            final(self)@.headers == old(self)@.headers.push((key@, value@)),
            final(self)@.payload == old(self)@.payload,
    {
        self.headers.push((key, value));
        proof {
            assert(final(self)@.headers =~= old(self)@.headers.push((key@, value@)));
        }
    }

    /// The value stored under the given key: the first entry that carries
    /// it, or `None` if no entry does.
    pub fn header(&self, key: &String) -> (r: Option<&String>)
        ensures
            match r {
                Option::Some(v) => spec_header_lookup(self@.headers, key@) == Some(v@),
                Option::None => spec_header_lookup(self@.headers, key@) is None,
            },
    {
        let n = self.headers.len();
        let mut i: usize = 0;
        proof {
            assert(self@.headers.skip(0) =~= self@.headers);
        }
        while i < n
            invariant
                0 <= i <= n,
                n == self.headers.len(),
                forall|j: int| 0 <= j < i ==> self@.headers[j].0 != key@,
                spec_header_lookup(self@.headers, key@) == spec_header_lookup(
                    self@.headers.skip(i as int),
                    key@,
                ),
            decreases n - i,
        {
            let found = self.headers[i].0 == *key;
            proof {
                assert(self@.headers.skip(i as int)[0] == self@.headers[i as int]);
                assert(self@.headers.skip(i as int).drop_first() =~= self@.headers.skip(i + 1));
            }
            if found {
                proof {
                    assert(self@.headers[i as int].0 == key@);
                }
                return Some(&self.headers[i].1);
            }
            i = i + 1;
        }
        proof {
            assert(self@.headers.skip(n as int) =~= Seq::<(Seq<char>, Seq<char>)>::empty());
        }
        None
    }
}

/// The value under the first entry carrying the key, if any.
pub open spec fn spec_header_lookup(
    headers: Seq<(Seq<char>, Seq<char>)>,
    key: Seq<char>,
) -> Option<Seq<char>>
    decreases headers.len(),
{
    if headers.len() == 0 {
        None
    } else if headers.first().0 == key {
        Some(headers.first().1)
    } else {
        spec_header_lookup(headers.drop_first(), key)
    }
}

/// The canonical encoding of one header entry.
pub open spec fn spec_enc_header_entry(kv: (Seq<char>, Seq<char>)) -> Seq<u8> {
    spec_msg_fld(0x0A, spec_str_fld(0x0A, kv.0) + spec_str_fld(0x12, kv.1))
}

/// Decode one header-entry body; the body must be consumed exactly.
pub open spec fn spec_dec_header_entry(s: Seq<u8>) -> Option<(Seq<char>, Seq<char>)> {
    match spec_parse_str_fld(s, 0x0A) {
        None => None,
        Some((key, k1)) => {
            match spec_parse_str_fld(s.skip(k1), 0x12) {
                None => None,
                Some((value, k2)) => if k1 + k2 == s.len() {
                    Some((key, value))
                } else {
                    None
                },
            }
        },
    }
}

/// The canonical encoding of the header entries, in order.
pub open spec fn spec_enc_headers(hs: Seq<(Seq<char>, Seq<char>)>) -> Seq<u8>
    decreases hs.len(),
{
    if hs.len() == 0 {
        Seq::empty()
    } else {
        spec_enc_header_entry(hs.first()) + spec_enc_headers(hs.drop_first())
    }
}

/// Parse header entries until the next field is not a header entry.
pub open spec fn spec_parse_headers(s: Seq<u8>) -> Option<
    (Seq<(Seq<char>, Seq<char>)>, int),
>
    decreases s.len(),
{
    if s.len() >= 1 && s[0] == 0x0A {
        match spec_parse_msg_fld(s, 0x0A) {
            None => None,
            Some((body, k)) => {
                match spec_dec_header_entry(body) {
                    None => None,
                    Some(kv) => if 1 <= k <= s.len() {
                        match spec_parse_headers(s.skip(k)) {
                            Some((rest, k2)) => Some((seq![kv] + rest, k + k2)),
                            None => None,
                        }
                    } else {
                        None
                    },
                }
            },
        }
    } else {
        Some((Seq::empty(), 0))
    }
}

/// Every header string is small enough to encode.
pub open spec fn headers_ok(hs: Seq<(Seq<char>, Seq<char>)>) -> bool {
    forall|i: int| 0 <= i < hs.len() ==> str_ok(#[trigger] hs[i].0) && str_ok(hs[i].1)
}

/// A well-formed envelope model: strings and payload bytes small enough for
/// their length prefixes.
pub open spec fn wf_envelope(e: EnvelopeV) -> bool {
    &&& headers_ok(e.headers)
    &&& str_ok(e.payload.type_url)
    &&& e.payload.value.len() < 0x1_0000_0000
}

/// Header-entry round trip.
proof fn lemma_header_entry_roundtrip(kv: (Seq<char>, Seq<char>), rest: Seq<u8>)
    requires
        str_ok(kv.0),
        str_ok(kv.1),
    ensures
        spec_parse_msg_fld(spec_enc_header_entry(kv) + rest, 0x0A) matches Some(p) && p.0
            == spec_str_fld(0x0A, kv.0) + spec_str_fld(0x12, kv.1) && p.1
            == spec_enc_header_entry(kv).len(),
        spec_dec_header_entry(spec_str_fld(0x0A, kv.0) + spec_str_fld(0x12, kv.1)) == Some(kv),
        spec_enc_header_entry(kv).len() >= 2,
        spec_enc_header_entry(kv)[0] == 0x0A,
{
    let body = spec_str_fld(0x0A, kv.0) + spec_str_fld(0x12, kv.1);
    lemma_str_fld_roundtrip(0x0A, kv.0, spec_str_fld(0x12, kv.1));
    lemma_str_fld_roundtrip(0x12, kv.1, Seq::empty());
    assert(spec_str_fld(0x12, kv.1) + Seq::<u8>::empty() =~= spec_str_fld(0x12, kv.1));
    assert(body.skip(spec_str_fld(0x0A, kv.0).len() as int) =~= spec_str_fld(0x12, kv.1));
    assert(body.len() < 0x1_0000_0000_0000_0000) by {
        crate::codec::lemma_msg_fld_len(0x0A, encode_utf8(kv.0));
        crate::codec::lemma_msg_fld_len(0x12, encode_utf8(kv.1));
    }
    lemma_msg_fld_roundtrip(0x0A, body, rest);
}

/// Header-list round trip: parsing stops exactly where the entries end.
#[verifier::rlimit(60)]
#[verifier::spinoff_prover]
proof fn lemma_headers_roundtrip(hs: Seq<(Seq<char>, Seq<char>)>, rest: Seq<u8>)
    requires
        headers_ok(hs),
        rest.len() == 0 || rest[0] != 0x0A,
    ensures
        spec_parse_headers(spec_enc_headers(hs) + rest) == Some(
            (hs, spec_enc_headers(hs).len() as int),
        ),
    decreases hs.len(),
{
    let s = spec_enc_headers(hs) + rest;
    if hs.len() == 0 {
        assert(s =~= rest);
    } else {
        let kv = hs.first();
        let entry = spec_enc_header_entry(kv);
        let tail = spec_enc_headers(hs.drop_first());
        assert(s =~= entry + (tail + rest));
        lemma_header_entry_roundtrip(kv, tail + rest);
        assert(s[0] == 0x0A);
        assert(s.skip(entry.len() as int) =~= tail + rest);
        assert(headers_ok(hs.drop_first())) by {
            assert(forall|i: int|
                0 <= i < hs.drop_first().len() ==> hs.drop_first()[i] == hs[i + 1]);
        }
        lemma_headers_roundtrip(hs.drop_first(), rest);
        assert(seq![kv] + hs.drop_first() =~= hs);
    }
}

/// The canonical encoding of a packed payload, as the body of the
/// envelope's payload field.
pub open spec fn spec_enc_payload(p: PackedPayloadV) -> Seq<u8> {
    spec_str_fld(0x0A, p.type_url) + spec_msg_fld(0x12, p.value)
}

/// Decode a packed-payload body; the body must be consumed exactly.
pub open spec fn spec_dec_payload(s: Seq<u8>) -> Option<PackedPayloadV> {
    match spec_parse_str_fld(s, 0x0A) {
        None => None,
        Some((type_url, k1)) => {
            match spec_parse_msg_fld(s.skip(k1), 0x12) {
                None => None,
                Some((value, k2)) => if k1 + k2 == s.len() {
                    Some(PackedPayloadV { type_url, value })
                } else {
                    None
                },
            }
        },
    }
}

/// The canonical encoding of a whole envelope: the header entries, then
/// the payload field.
pub open spec fn spec_enc_envelope(e: EnvelopeV) -> Seq<u8> {
    spec_enc_headers(e.headers) + spec_msg_fld(0x12, spec_enc_payload(e.payload))
}

/// Decode a whole envelope; the buffer must be consumed exactly.
pub open spec fn spec_dec_envelope(s: Seq<u8>) -> Option<EnvelopeV> {
    match spec_parse_headers(s) {
        None => None,
        Some((headers, k)) => {
            match spec_parse_msg_fld(s.skip(k), 0x12) {
                None => None,
                Some((body, k2)) => if k + k2 == s.len() {
                    match spec_dec_payload(body) {
                        Some(payload) => Some(EnvelopeV { headers, payload }),
                        None => None,
                    }
                } else {
                    None
                },
            }
        },
    }
}

/// Envelope round trip: decoding an encoded envelope yields headers equal
/// to the input and the same packed payload.
pub proof fn lemma_envelope_roundtrip(e: EnvelopeV)
    requires
        wf_envelope(e),
    ensures
        spec_dec_envelope(spec_enc_envelope(e)) == Some(e),
{
    let hs = spec_enc_headers(e.headers);
    let pbody = spec_enc_payload(e.payload);
    let pfld = spec_msg_fld(0x12, pbody);
    let s = spec_enc_envelope(e);
    assert(pbody.len() < 0x1_0000_0000_0000_0000) by {
        crate::codec::lemma_msg_fld_len(0x0A, encode_utf8(e.payload.type_url));
        crate::codec::lemma_msg_fld_len(0x12, e.payload.value);
    }
    lemma_msg_fld_roundtrip(0x12, pbody, Seq::empty());
    assert(pfld[0] == 0x12);
    lemma_headers_roundtrip(e.headers, pfld);
    assert(s =~= hs + pfld);
    assert(s.skip(hs.len() as int) =~= pfld);
    assert(pfld + Seq::<u8>::empty() =~= pfld);
    // the payload body itself round-trips
    lemma_str_fld_roundtrip(0x0A, e.payload.type_url, spec_msg_fld(0x12, e.payload.value));
    lemma_msg_fld_roundtrip(0x12, e.payload.value, Seq::empty());
    assert(spec_msg_fld(0x12, e.payload.value) + Seq::<u8>::empty() =~= spec_msg_fld(
        0x12,
        e.payload.value,
    ));
    assert(pbody.skip(spec_str_fld(0x0A, e.payload.type_url).len() as int) =~= spec_msg_fld(
        0x12,
        e.payload.value,
    ));
}

/// Encode an envelope.
pub fn encode_envelope(e: &Envelope) -> (r: Vec<u8>)
    ensures
        r@ == spec_enc_envelope(e@),
{
    let mut out: Vec<u8> = Vec::new();
    let n = e.headers.len();
    let mut i: usize = 0;
    proof {
        assert(e@.headers.take(0) =~= Seq::<(Seq<char>, Seq<char>)>::empty());
        assert(out@ =~= spec_enc_headers(e@.headers.take(0)));
    }
    while i < n
        invariant
            0 <= i <= n,
            n == e.headers.len(),
            out@ == spec_enc_headers(e@.headers.take(i as int)),
        decreases n - i,
    {
        let ghost done = e@.headers.take(i as int);
        let mut body: Vec<u8> = Vec::new();
        encode_str_fld(&mut body, 0x0A, e.headers[i].0.as_str());
        encode_str_fld(&mut body, 0x12, e.headers[i].1.as_str());
        proof {
            assert(body@ =~= spec_str_fld(0x0A, e@.headers[i as int].0) + spec_str_fld(
                0x12,
                e@.headers[i as int].1,
            ));
        }
        encode_msg_fld(&mut out, 0x0A, &body);
        proof {
            lemma_enc_headers_snoc(done, e@.headers[i as int]);
            assert(done.push(e@.headers[i as int]) =~= e@.headers.take(i + 1));
            assert(out@ =~= spec_enc_headers(e@.headers.take(i + 1)));
        }
        i = i + 1;
    }
    proof {
        assert(e@.headers.take(n as int) =~= e@.headers);
    }
    let mut pbody: Vec<u8> = Vec::new();
    encode_str_fld(&mut pbody, 0x0A, e.payload.type_url.as_str());
    encode_msg_fld(&mut pbody, 0x12, &e.payload.value);
    proof {
        assert(pbody@ =~= spec_enc_payload(e@.payload));
    }
    encode_msg_fld(&mut out, 0x12, &pbody);
    proof {
        assert(out@ =~= spec_enc_envelope(e@));
    }
    out
}

/// Appending one entry appends its encoding.
proof fn lemma_enc_headers_snoc(hs: Seq<(Seq<char>, Seq<char>)>, kv: (Seq<char>, Seq<char>))
    ensures
        spec_enc_headers(hs.push(kv)) == spec_enc_headers(hs) + spec_enc_header_entry(kv),
    decreases hs.len(),
{
    let all = hs.push(kv);
    if hs.len() == 0 {
        assert(all.first() == kv);
        assert(all.drop_first() =~= Seq::<(Seq<char>, Seq<char>)>::empty());
        assert(spec_enc_headers(all.drop_first()) =~= Seq::<u8>::empty());
        assert(spec_enc_headers(all) =~= spec_enc_header_entry(kv));
        assert(spec_enc_headers(hs) + spec_enc_header_entry(kv) =~= spec_enc_header_entry(kv));
    } else {
        assert(all.first() == hs.first());
        assert(all.drop_first() =~= hs.drop_first().push(kv));
        lemma_enc_headers_snoc(hs.drop_first(), kv);
        assert(spec_enc_headers(all) =~= spec_enc_headers(hs) + spec_enc_header_entry(kv));
    }
}

/// Parse header entries at the given position.
fn read_headers(data: &Vec<u8>, pos: usize) -> (r: Option<(Vec<(String, String)>, usize)>)
    requires
        pos <= data@.len(),
    ensures
        match spec_parse_headers(data@.skip(pos as int)) {
            None => r is None,
            Some(p) => r matches Some(q) && q.0@.map_values(|kv: (String, String)| (kv.0@, kv.1@))
                == p.0 && q.1 == pos + p.1,
        },
        r matches Some(q) ==> pos <= q.1 <= data@.len(),
    decreases data@.len() - pos,
{
    let ghost s = data@.skip(pos as int);
    if pos >= data.len() || data[pos] != 0x0A {
        let empty: Vec<(String, String)> = Vec::new();
        proof {
            if s.len() >= 1 {
                assert(s[0] == data@[pos as int]);
            }
            assert(empty@.map_values(|kv: (String, String)| (kv.0@, kv.1@)) =~= Seq::<
                (Seq<char>, Seq<char>),
            >::empty());
        }
        return Some((empty, pos));
    }
    proof {
        assert(s[0] == 0x0A);
    }
    let (body, p1) = match read_msg_fld(data, pos, 0x0A) {
        Option::None => {
            return None;
        },
        Option::Some(x) => x,
    };
    proof {
        assert(body@.skip(0) =~= body@);
    }
    let (key, q1) = match read_str_fld(&body, 0, 0x0A) {
        Option::None => {
            return None;
        },
        Option::Some(x) => x,
    };
    proof {
        assert(body@.skip(0).skip(q1 as int) =~= body@.skip(q1 as int));
    }
    let (value, q2) = match read_str_fld(&body, q1, 0x12) {
        Option::None => {
            return None;
        },
        Option::Some(x) => x,
    };
    if q2 != body.len() {
        return None;
    }
    proof {
        assert(data@.skip(pos as int).skip((p1 - pos) as int) =~= data@.skip(p1 as int));
    }
    match read_headers(data, p1) {
        Option::None => Option::None,
        Option::Some((mut rest, end)) => {
            let ghost rest_view = rest@;
            rest.insert(0, (key, value));
            proof {
                let sp = spec_parse_headers(s).unwrap();
                assert(rest@.map_values(|kv: (String, String)| (kv.0@, kv.1@)) =~= sp.0);
            }
            Some((rest, end))
        },
    }
}

/// Decode an envelope from a whole buffer.
pub fn decode_envelope(data: &Vec<u8>) -> (r: Option<Envelope>)
    ensures
        match spec_dec_envelope(data@) {
            None => r is None,
            Some(v) => r matches Some(e) && e@ == v,
        },
{
    proof {
        assert(data@.skip(0) =~= data@);
    }
    let (headers, p1) = match read_headers(data, 0) {
        Option::None => {
            return None;
        },
        Option::Some(x) => x,
    };
    proof {
        assert(data@.skip(0).skip(p1 as int) =~= data@.skip(p1 as int));
    }
    let (body, p2) = match read_msg_fld(data, p1, 0x12) {
        Option::None => {
            return None;
        },
        Option::Some(x) => x,
    };
    if p2 != data.len() {
        return None;
    }
    proof {
        assert(body@.skip(0) =~= body@);
    }
    let (type_url, q1) = match read_str_fld(&body, 0, 0x0A) {
        Option::None => {
            return None;
        },
        Option::Some(x) => x,
    };
    proof {
        assert(body@.skip(0).skip(q1 as int) =~= body@.skip(q1 as int));
    }
    let (value, q2) = match read_msg_fld(&body, q1, 0x12) {
        Option::None => {
            return None;
        },
        Option::Some(x) => x,
    };
    if q2 != body.len() {
        return None;
    }
    Some(Envelope { headers, payload: PackedPayload { type_url, value } })
}

/// UTF-8 spends at most four bytes per character.
pub proof fn lemma_encode_utf8_len(chars: Seq<char>)
    ensures
        encode_utf8(chars).len() <= 4 * chars.len(),
    decreases chars.len(),
{
    if chars.len() > 0 {
        lemma_encode_utf8_len(chars.drop_first());
    }
}

/// Pack a discovery request for the envelope.
pub fn pack_discovery(c: &crate::messages::EntityDiscoveryCommand) -> (r: PackedPayload)
    ensures
        r@.type_url == "wipmate.EntityDiscoveryCommand"@,
        r@.value == crate::codec::spec_enc_discovery(c@),
{
    PackedPayload {
        type_url: String::from_str("wipmate.EntityDiscoveryCommand"),
        value: crate::codec::encode_discovery(c),
    }
}

/// Unpack a discovery request: the type name must match and the bytes must
/// decode.
pub fn unpack_discovery(p: &PackedPayload) -> (r: Option<
    crate::messages::EntityDiscoveryCommand,
>)
    ensures
        r is Some <==> (p@.type_url == "wipmate.EntityDiscoveryCommand"@
            && crate::codec::spec_dec_discovery(p@.value) is Some),
        r matches Some(c) ==> Some(c@) == crate::codec::spec_dec_discovery(p@.value),
{
    let expected = String::from_str("wipmate.EntityDiscoveryCommand");
    if p.type_url == expected {
        crate::codec::decode_discovery(&p.value)
    } else {
        None
    }
}

/// Pack a response code for the envelope.
pub fn pack_response(c: &crate::messages::ResponseCode) -> (r: PackedPayload)
    ensures
        r@.type_url == "wipmate.ResponseCode"@,
        r@.value == crate::codec::spec_enc_response(*c),
{
    PackedPayload {
        type_url: String::from_str("wipmate.ResponseCode"),
        value: crate::codec::encode_response(c),
    }
}

/// Unpack a response code.
pub fn unpack_response(p: &PackedPayload) -> (r: Option<crate::messages::ResponseCode>)
    ensures
        r is Some <==> (p@.type_url == "wipmate.ResponseCode"@
            && crate::codec::spec_dec_response(p@.value) is Some),
        r matches Some(c) ==> Some(c) == crate::codec::spec_dec_response(p@.value),
{
    let expected = String::from_str("wipmate.ResponseCode");
    if p.type_url == expected {
        crate::codec::decode_response(&p.value)
    } else {
        None
    }
}

/// Pack a published sample for the envelope.
pub fn pack_publish(d: &crate::messages::PublishData) -> (r: PackedPayload)
    ensures
        r@.type_url == "wipmate.PublishData"@,
        r@.value == crate::codec::spec_enc_publish(d@),
{
    PackedPayload {
        type_url: String::from_str("wipmate.PublishData"),
        value: crate::codec::encode_publish(d),
    }
}

/// Unpack a published sample.
pub fn unpack_publish(p: &PackedPayload) -> (r: Option<crate::messages::PublishData>)
    ensures
        r is Some <==> (p@.type_url == "wipmate.PublishData"@ && crate::codec::spec_dec_publish(
            p@.value,
        ) is Some),
        r matches Some(d) ==> Some(d@) == crate::codec::spec_dec_publish(p@.value),
{
    let expected = String::from_str("wipmate.PublishData");
    if p.type_url == expected {
        crate::codec::decode_publish(&p.value)
    } else {
        None
    }
}

/// Pack a named state update for the envelope.
pub fn pack_named(n: &crate::messages::NamedEntityState) -> (r: PackedPayload)
    ensures
        r@.type_url == "wipmate.NamedEntityState"@,
        r@.value == crate::codec::spec_enc_named(n@),
{
    PackedPayload {
        type_url: String::from_str("wipmate.NamedEntityState"),
        value: crate::codec::encode_named(n),
    }
}

/// Unpack a named state update.
pub fn unpack_named(p: &PackedPayload) -> (r: Option<crate::messages::NamedEntityState>)
    ensures
        r is Some <==> (p@.type_url == "wipmate.NamedEntityState"@
            && crate::codec::spec_dec_named(p@.value) is Some),
        r matches Some(n) ==> Some(n@) == crate::codec::spec_dec_named(p@.value),
{
    let expected = String::from_str("wipmate.NamedEntityState");
    if p.type_url == expected {
        crate::codec::decode_named(&p.value)
    } else {
        None
    }
}

/// Pack a client request for the envelope.
pub fn pack_client(c: &crate::messages::ClientApiCommand) -> (r: PackedPayload)
    ensures
        r@.type_url == "wipmate.ClientApiCommand"@,
        r@.value == crate::codec::spec_enc_client(c@),
{
    PackedPayload {
        type_url: String::from_str("wipmate.ClientApiCommand"),
        value: crate::codec::encode_client(c),
    }
}

/// Unpack a client request.
pub fn unpack_client(p: &PackedPayload) -> (r: Option<crate::messages::ClientApiCommand>)
    ensures
        r is Some <==> (p@.type_url == "wipmate.ClientApiCommand"@
            && crate::codec::spec_dec_client(p@.value) is Some),
        r matches Some(c) ==> Some(c@) == crate::codec::spec_dec_client(p@.value),
{
    let expected = String::from_str("wipmate.ClientApiCommand");
    if p.type_url == expected {
        crate::codec::decode_client(&p.value)
    } else {
        None
    }
}

/// Pack a system-state snapshot for the envelope.
pub fn pack_system(st: &crate::messages::SystemState) -> (r: PackedPayload)
    ensures
        r@.type_url == "wipmate.SystemState"@,
        r@.value == crate::system_codec::spec_enc_system(st@),
{
    PackedPayload {
        type_url: String::from_str("wipmate.SystemState"),
        value: crate::system_codec::encode_system(st),
    }
}

/// Unpack a system-state snapshot.
pub fn unpack_system(p: &PackedPayload) -> (r: Option<crate::messages::SystemState>)
    ensures
        r is Some <==> (p@.type_url == "wipmate.SystemState"@
            && crate::system_codec::spec_dec_system(p@.value) is Some),
        r matches Some(st) ==> Some(st@) == crate::system_codec::spec_dec_system(p@.value),
{
    let expected = String::from_str("wipmate.SystemState");
    if p.type_url == expected {
        crate::system_codec::decode_system(&p.value)
    } else {
        None
    }
}

/// Envelope round trip for a typed payload: wrapping a discovery request in
/// an envelope, encoding it and decoding it again yields the same headers
/// and a payload that decodes to the original message.
pub proof fn lemma_envelope_discovery_roundtrip(
    headers: Seq<(Seq<char>, Seq<char>)>,
    c: crate::messages::EntityDiscoveryCommandV,
)
    requires
        headers_ok(headers),
        str_ok(c.entity_name),
    ensures
        ({
            let env = EnvelopeV {
                headers,
                payload: PackedPayloadV {
                    type_url: "wipmate.EntityDiscoveryCommand"@,
                    value: crate::codec::spec_enc_discovery(c),
                },
            };
            spec_dec_envelope(spec_enc_envelope(env)) == Some(env)
                && crate::codec::spec_dec_discovery(env.payload.value) == Some(c)
        }),
{
    let env = EnvelopeV {
        headers,
        payload: PackedPayloadV {
            type_url: "wipmate.EntityDiscoveryCommand"@,
            value: crate::codec::spec_enc_discovery(c),
        },
    };
    reveal_strlit("wipmate.EntityDiscoveryCommand");
    lemma_encode_utf8_len("wipmate.EntityDiscoveryCommand"@);
    crate::codec::lemma_enc_discovery_len(c);
    lemma_envelope_roundtrip(env);
    crate::codec::lemma_discovery_roundtrip(c);
}

/// Envelope round trip for a typed response-code payload.
pub proof fn lemma_envelope_response_roundtrip(
    headers: Seq<(Seq<char>, Seq<char>)>,
    c: crate::messages::ResponseCode,
)
    requires
        headers_ok(headers),
    ensures
        ({
            let env = EnvelopeV {
                headers,
                payload: PackedPayloadV {
                    type_url: "wipmate.ResponseCode"@,
                    value: crate::codec::spec_enc_response(c),
                },
            };
            spec_dec_envelope(spec_enc_envelope(env)) == Some(env)
                && crate::codec::spec_dec_response(env.payload.value) == Some(c)
        }),
{
    let env = EnvelopeV {
        headers,
        payload: PackedPayloadV {
            type_url: "wipmate.ResponseCode"@,
            value: crate::codec::spec_enc_response(c),
        },
    };
    reveal_strlit("wipmate.ResponseCode");
    lemma_encode_utf8_len("wipmate.ResponseCode"@);
    crate::codec::lemma_enc_response_len(c);
    lemma_envelope_roundtrip(env);
    crate::codec::lemma_response_roundtrip(c);
}

/// Envelope round trip for a typed published-sample payload.
pub proof fn lemma_envelope_publish_roundtrip(
    headers: Seq<(Seq<char>, Seq<char>)>,
    d: crate::messages::PublishDataV,
)
    requires
        headers_ok(headers),
        crate::codec::wf_publish(d),
    ensures
        ({
            let env = EnvelopeV {
                headers,
                payload: PackedPayloadV {
                    type_url: "wipmate.PublishData"@,
                    value: crate::codec::spec_enc_publish(d),
                },
            };
            spec_dec_envelope(spec_enc_envelope(env)) == Some(env)
                && crate::codec::spec_dec_publish(env.payload.value) == Some(d)
        }),
{
    let env = EnvelopeV {
        headers,
        payload: PackedPayloadV {
            type_url: "wipmate.PublishData"@,
            value: crate::codec::spec_enc_publish(d),
        },
    };
    reveal_strlit("wipmate.PublishData");
    lemma_encode_utf8_len("wipmate.PublishData"@);
    crate::codec::lemma_enc_publish_len(d);
    lemma_envelope_roundtrip(env);
    crate::codec::lemma_publish_roundtrip(d);
}

/// Envelope round trip for a typed named-state payload.
pub proof fn lemma_envelope_named_roundtrip(
    headers: Seq<(Seq<char>, Seq<char>)>,
    n: crate::messages::NamedEntityStateV,
)
    requires
        headers_ok(headers),
        crate::codec::wf_named(n),
    ensures
        ({
            let env = EnvelopeV {
                headers,
                payload: PackedPayloadV {
                    type_url: "wipmate.NamedEntityState"@,
                    value: crate::codec::spec_enc_named(n),
                },
            };
            spec_dec_envelope(spec_enc_envelope(env)) == Some(env)
                && crate::codec::spec_dec_named(env.payload.value) == Some(n)
        }),
{
    let env = EnvelopeV {
        headers,
        payload: PackedPayloadV {
            type_url: "wipmate.NamedEntityState"@,
            value: crate::codec::spec_enc_named(n),
        },
    };
    reveal_strlit("wipmate.NamedEntityState");
    lemma_encode_utf8_len("wipmate.NamedEntityState"@);
    crate::codec::lemma_enc_named_len(n);
    lemma_envelope_roundtrip(env);
    crate::codec::lemma_named_roundtrip(n);
}

/// Envelope round trip for a typed client-request payload.
pub proof fn lemma_envelope_client_roundtrip(
    headers: Seq<(Seq<char>, Seq<char>)>,
    c: crate::messages::ClientApiCommandV,
)
    requires
        headers_ok(headers),
        crate::codec::wf_client(c),
    ensures
        ({
            let env = EnvelopeV {
                headers,
                payload: PackedPayloadV {
                    type_url: "wipmate.ClientApiCommand"@,
                    value: crate::codec::spec_enc_client(c),
                },
            };
            spec_dec_envelope(spec_enc_envelope(env)) == Some(env)
                && crate::codec::spec_dec_client(env.payload.value) == Some(c)
        }),
{
    let env = EnvelopeV {
        headers,
        payload: PackedPayloadV {
            type_url: "wipmate.ClientApiCommand"@,
            value: crate::codec::spec_enc_client(c),
        },
    };
    reveal_strlit("wipmate.ClientApiCommand");
    lemma_encode_utf8_len("wipmate.ClientApiCommand"@);
    crate::codec::lemma_enc_client_len(c);
    lemma_envelope_roundtrip(env);
    crate::codec::lemma_client_roundtrip(c);
}

/// Envelope round trip for a typed system-state payload. The snapshot's
/// encoding must fit its length prefix, which any snapshot that exists in
/// memory does.
pub proof fn lemma_envelope_system_roundtrip(
    headers: Seq<(Seq<char>, Seq<char>)>,
    st: crate::messages::SystemStateV,
)
    requires
        headers_ok(headers),
        crate::system_codec::wf_system(st),
        crate::system_codec::spec_enc_system(st).len() < 0x1_0000_0000,
    ensures
        ({
            let env = EnvelopeV {
                headers,
                payload: PackedPayloadV {
                    type_url: "wipmate.SystemState"@,
                    value: crate::system_codec::spec_enc_system(st),
                },
            };
            spec_dec_envelope(spec_enc_envelope(env)) == Some(env)
                && crate::system_codec::spec_dec_system(env.payload.value) == Some(st)
        }),
{
    let env = EnvelopeV {
        headers,
        payload: PackedPayloadV {
            type_url: "wipmate.SystemState"@,
            value: crate::system_codec::spec_enc_system(st),
        },
    };
    reveal_strlit("wipmate.SystemState");
    lemma_encode_utf8_len("wipmate.SystemState"@);
    lemma_envelope_roundtrip(env);
    crate::system_codec::lemma_system_roundtrip(st);
}

} // verus!
