//! The message codec: every typed message, and the envelope around it, is
//! encoded to and decoded from the protobuf wire format.
//!
//! The encoders write every field, in field order, so each message has one
//! canonical encoding; the decoders accept exactly the canonical form and
//! refuse anything else, which is the protocol-violation error of the
//! design. Encoding and decoding are pinned to spec-level functions, and
//! round-trip lemmas prove that decoding an encoded message yields the
//! original.

use vstd::prelude::*;

use vstd::utf8::{decode_utf8, encode_utf8, valid_utf8};

use crate::messages::{
    ActuatorState, ClientApiCommand, ClientApiCommandV, DiscoveryCommand, EntityDiscoveryCommand,
    EntityDiscoveryCommandV, EntityStatePayload, EntityType, Measurement, NamedEntityState,
    NamedEntityStateV, PublishData, PublishDataV, ResponseCode, SensorMeasurement,
    SensorMeasurementV,
};
use crate::wire::{
    encode_len_prefixed, read_len_prefixed, spec_len_prefixed, spec_parse_len_prefixed,
};

verus! {

/// The wire value of an entity type.
pub open spec fn spec_type_code(t: EntityType) -> nat {
    match t {
        EntityType::Sensor => 0,
        EntityType::Actuator => 1,
    }
}

/// The wire value of a response code.
pub open spec fn spec_code_value(c: ResponseCode) -> nat {
    match c {
        ResponseCode::Okay => 0,
        ResponseCode::Error => 1,
    }
}

/// Strings on the wire carry their length in a varint; any string that
/// exists in memory is far below this bound.
pub open spec fn str_ok(s: Seq<char>) -> bool {
    encode_utf8(s).len() < 0x1000_0000
}

/// Relies on `String::from_utf8`: it returns a string exactly when the
/// bytes are valid UTF-8, and the returned string's bytes are the input.
#[verifier::external_body]
fn string_from_utf8(bytes: Vec<u8>) -> (r: Option<String>)
    ensures
        r is Some <==> valid_utf8(bytes@),
        r matches Some(s) ==> encode_utf8(s@) == bytes@,
{
    String::from_utf8(bytes).ok()
}

/// A tagged length-prefixed submessage field.
pub open spec fn spec_msg_fld(tag: u8, body: Seq<u8>) -> Seq<u8> {
    seq![tag] + spec_len_prefixed(body)
}

/// Parse a tagged submessage field: the body bytes and the total consumed.
pub open spec fn spec_parse_msg_fld(s: Seq<u8>, tag: u8) -> Option<(Seq<u8>, int)> {
    if s.len() >= 1 && s[0] == tag {
        match spec_parse_len_prefixed(s.skip(1)) {
            Some(p) => Some((p.0, p.1 + 1)),
            None => None,
        }
    } else {
        None
    }
}

/// Submessage-field round trip.
pub proof fn lemma_msg_fld_roundtrip(tag: u8, body: Seq<u8>, rest: Seq<u8>)
    requires
        body.len() < 0x1_0000_0000_0000_0000,
    ensures
        spec_parse_msg_fld(spec_msg_fld(tag, body) + rest, tag) == Some(
            (body, spec_msg_fld(tag, body).len() as int),
        ),
        spec_msg_fld(tag, body).len() >= 2,
        spec_msg_fld(tag, body)[0] == tag,
{
    let s = spec_msg_fld(tag, body) + rest;
    assert(s[0] == tag);
    assert(s.skip(1) =~= spec_len_prefixed(body) + rest);
    crate::wire::lemma_len_prefixed_roundtrip(body, rest);
    crate::wire::lemma_varint_fits(body.len());
}

/// A submessage field is little longer than its body.
pub proof fn lemma_msg_fld_len(tag: u8, body: Seq<u8>)
    requires
        body.len() < 0x1_0000_0000_0000_0000,
    ensures
        spec_msg_fld(tag, body).len() <= 11 + body.len(),
        spec_msg_fld(tag, body).len() >= 2,
{
    crate::wire::lemma_varint_fits(body.len());
}

/// A string field is little longer than its text.
pub proof fn lemma_str_fld_len(tag: u8, sc: Seq<char>)
    requires
        str_ok(sc),
    ensures
        spec_str_fld(tag, sc).len() <= 11 + encode_utf8(sc).len(),
        spec_str_fld(tag, sc).len() >= 2,
{
    lemma_msg_fld_len(tag, encode_utf8(sc));
}

/// Append a tagged submessage field.
pub fn encode_msg_fld(out: &mut Vec<u8>, tag: u8, body: &Vec<u8>)
    ensures
        final(out)@ == old(out)@ + spec_msg_fld(tag, body@),
{
    out.push(tag);
    encode_len_prefixed(out, body);
    proof {
        assert(out@ =~= old(out)@ + spec_msg_fld(tag, body@));
    }
}

/// Parse a tagged submessage field at the given position.
pub fn read_msg_fld(data: &Vec<u8>, pos: usize, tag: u8) -> (r: Option<(Vec<u8>, usize)>)
    requires
        pos <= data@.len(),
    ensures
        match spec_parse_msg_fld(data@.skip(pos as int), tag) {
            None => r is None,
            Some(p) => r matches Some(q) && q.0@ == p.0 && q.1 == pos + p.1,
        },
        r matches Some(q) ==> pos < q.1 <= data@.len(),
{
    if pos >= data.len() {
        return None;
    }
    if data[pos] != tag {
        proof {
            assert(data@.skip(pos as int)[0] == data@[pos as int]);
        }
        return None;
    }
    proof {
        assert(data@.skip(pos as int)[0] == tag);
        assert(data@.skip(pos as int).skip(1) =~= data@.skip(pos + 1));
    }
    match read_len_prefixed(data, pos + 1) {
        Option::None => Option::None,
        Option::Some((bytes, p)) => Some((bytes, p)),
    }
}

/// A tagged string field: the UTF-8 bytes, length-prefixed.
pub open spec fn spec_str_fld(tag: u8, s: Seq<char>) -> Seq<u8> {
    spec_msg_fld(tag, encode_utf8(s))
}

/// Parse a tagged string field: the characters and the total consumed.
pub open spec fn spec_parse_str_fld(s: Seq<u8>, tag: u8) -> Option<(Seq<char>, int)> {
    match spec_parse_msg_fld(s, tag) {
        Some(p) => if valid_utf8(p.0) {
            Some((decode_utf8(p.0), p.1))
        } else {
            None
        },
        None => None,
    }
}

/// String-field round trip.
pub proof fn lemma_str_fld_roundtrip(tag: u8, sc: Seq<char>, rest: Seq<u8>)
    requires
        str_ok(sc),
    ensures
        spec_parse_str_fld(spec_str_fld(tag, sc) + rest, tag) == Some(
            (sc, spec_str_fld(tag, sc).len() as int),
        ),
        spec_str_fld(tag, sc).len() >= 2,
        spec_str_fld(tag, sc)[0] == tag,
{
    broadcast use vstd::utf8::encode_utf8_valid_utf8, vstd::utf8::encode_utf8_decode_utf8;

    lemma_msg_fld_roundtrip(tag, encode_utf8(sc), rest);
}

/// Append a tagged string field.
pub fn encode_str_fld(out: &mut Vec<u8>, tag: u8, s: &str)
    ensures
        final(out)@ == old(out)@ + spec_str_fld(tag, s@),
{
    let bytes = s.as_bytes_vec();
    encode_msg_fld(out, tag, &bytes);
}

/// Parse a tagged string field at the given position.
pub fn read_str_fld(data: &Vec<u8>, pos: usize, tag: u8) -> (r: Option<(String, usize)>)
    requires
        pos <= data@.len(),
    ensures
        match spec_parse_str_fld(data@.skip(pos as int), tag) {
            None => r is None,
            Some(p) => r matches Some(q) && q.0@ == p.0 && q.1 == pos + p.1,
        },
        r matches Some(q) ==> pos < q.1 <= data@.len(),
{
    match read_msg_fld(data, pos, tag) {
        Option::None => Option::None,
        Option::Some((bytes, p)) => {
            let ghost bs = bytes@;
            match string_from_utf8(bytes) {
                Option::None => Option::None,
                Option::Some(st) => {
                    proof {
                        broadcast use vstd::utf8::encode_utf8_decode_utf8;

                        assert(decode_utf8(bs) == st@);
                    }
                    Some((st, p))
                },
            }
        },
    }
}

/// A tagged varint field.
pub open spec fn spec_varint_fld(tag: u8, n: nat) -> Seq<u8> {
    seq![tag] + crate::wire::spec_varint(n)
}

/// Parse a tagged varint field: the value and the total consumed.
pub open spec fn spec_parse_varint_fld(s: Seq<u8>, tag: u8) -> Option<(int, int)> {
    if s.len() >= 1 && s[0] == tag {
        match crate::wire::spec_parse_varint(s.skip(1)) {
            Some(p) => Some((p.0, p.1 + 1)),
            None => None,
        }
    } else {
        None
    }
}

/// Varint-field round trip.
pub proof fn lemma_varint_fld_roundtrip(tag: u8, n: nat, rest: Seq<u8>)
    requires
        n < 0x1_0000_0000_0000_0000,
    ensures
        spec_parse_varint_fld(spec_varint_fld(tag, n) + rest, tag) == Some(
            (n as int, spec_varint_fld(tag, n).len() as int),
        ),
        spec_varint_fld(tag, n).len() >= 2,
        spec_varint_fld(tag, n)[0] == tag,
{
    let s = spec_varint_fld(tag, n) + rest;
    assert(s[0] == tag);
    assert(s.skip(1) =~= crate::wire::spec_varint(n) + rest);
    crate::wire::lemma_varint_roundtrip(n, rest);
    crate::wire::lemma_varint_fits(n);
}

/// Append a tagged varint field.
pub fn encode_varint_fld(out: &mut Vec<u8>, tag: u8, n: u64)
    ensures
        final(out)@ == old(out)@ + spec_varint_fld(tag, n as nat),
{
    out.push(tag);
    crate::wire::encode_varint(out, n);
    proof {
        assert(out@ =~= old(out)@ + spec_varint_fld(tag, n as nat));
    }
}

/// Parse a tagged varint field at the given position.
pub fn read_varint_fld(data: &Vec<u8>, pos: usize, tag: u8) -> (r: Option<(u64, usize)>)
    requires
        pos <= data@.len(),
    ensures
        match spec_parse_varint_fld(data@.skip(pos as int), tag) {
            None => r is None,
            Some(p) => r matches Some(q) && q.0 == p.0 && q.1 == pos + p.1,
        },
        r matches Some(q) ==> pos < q.1 <= data@.len(),
{
    if pos >= data.len() {
        return None;
    }
    if data[pos] != tag {
        proof {
            assert(data@.skip(pos as int)[0] == data@[pos as int]);
        }
        return None;
    }
    proof {
        assert(data@.skip(pos as int)[0] == tag);
        assert(data@.skip(pos as int).skip(1) =~= data@.skip(pos + 1));
    }
    crate::wire::read_varint(data, pos + 1)
}

/// A tagged 32-bit little-endian field.
pub open spec fn spec_fixed32_fld(tag: u8, x: u32) -> Seq<u8> {
    seq![tag] + crate::wire::spec_fixed32(x)
}

/// Parse a tagged 32-bit field: the value and the total consumed.
pub open spec fn spec_parse_fixed32_fld(s: Seq<u8>, tag: u8) -> Option<(u32, int)> {
    if s.len() >= 1 && s[0] == tag {
        match crate::wire::spec_parse_fixed32(s.skip(1)) {
            Some(p) => Some((p.0, p.1 + 1)),
            None => None,
        }
    } else {
        None
    }
}

/// Fixed-width-field round trip.
pub proof fn lemma_fixed32_fld_roundtrip(tag: u8, x: u32, rest: Seq<u8>)
    ensures
        spec_parse_fixed32_fld(spec_fixed32_fld(tag, x) + rest, tag) == Some((x, 5int)),
        spec_fixed32_fld(tag, x).len() == 5,
        spec_fixed32_fld(tag, x)[0] == tag,
{
    let s = spec_fixed32_fld(tag, x) + rest;
    assert(s[0] == tag);
    assert(s.skip(1) =~= crate::wire::spec_fixed32(x) + rest);
    crate::wire::lemma_fixed32_roundtrip(x, rest);
    vstd::bytes::lemma_auto_spec_u32_to_from_le_bytes();
}

/// Append a tagged 32-bit little-endian field.
pub fn encode_fixed32_fld(out: &mut Vec<u8>, tag: u8, x: u32)
    ensures
        final(out)@ == old(out)@ + spec_fixed32_fld(tag, x),
{
    out.push(tag);
    crate::wire::encode_fixed32(out, x);
    proof {
        assert(out@ =~= old(out)@ + spec_fixed32_fld(tag, x));
    }
}

/// The canonical encoding of a response code.
pub open spec fn spec_enc_response(c: ResponseCode) -> Seq<u8> {
    spec_varint_fld(0x08, spec_code_value(c))
}

/// Decode a response-code message body; the body must be consumed exactly.
pub open spec fn spec_dec_response(s: Seq<u8>) -> Option<ResponseCode> {
    match spec_parse_varint_fld(s, 0x08) {
        Some(p) => if p.1 == s.len() {
            if p.0 == 0 {
                Some(ResponseCode::Okay)
            } else if p.0 == 1 {
                Some(ResponseCode::Error)
            } else {
                None
            }
        } else {
            None
        },
        None => None,
    }
}

/// Response-code round trip.
pub proof fn lemma_response_roundtrip(c: ResponseCode)
    ensures
        spec_dec_response(spec_enc_response(c)) == Some(c),
{
    lemma_varint_fld_roundtrip(0x08, spec_code_value(c), Seq::empty());
    assert(spec_enc_response(c) + Seq::<u8>::empty() =~= spec_enc_response(c));
}

/// Encode a response code.
pub fn encode_response(c: &ResponseCode) -> (r: Vec<u8>)
    ensures
        r@ == spec_enc_response(*c),
{
    let mut out: Vec<u8> = Vec::new();
    let v: u64 = match c {
        ResponseCode::Okay => 0,
        ResponseCode::Error => 1,
    };
    encode_varint_fld(&mut out, 0x08, v);
    proof {
        assert(out@ =~= spec_enc_response(*c));
    }
    out
}

/// Decode a response code.
pub fn decode_response(data: &Vec<u8>) -> (r: Option<ResponseCode>)
    ensures
        match spec_dec_response(data@) {
            None => r is None,
            Some(v) => r == Some(v),
        },
{
    proof {
        assert(data@.skip(0) =~= data@);
    }
    match read_varint_fld(data, 0, 0x08) {
        Option::None => Option::None,
        Option::Some((v, p)) => {
            if p != data.len() {
                None
            } else if v == 0 {
                Some(ResponseCode::Okay)
            } else if v == 1 {
                Some(ResponseCode::Error)
            } else {
                None
            }
        },
    }
}

/// The canonical encoding of a discovery request: name, type, then the
/// command as a one-of.
pub open spec fn spec_enc_discovery(c: EntityDiscoveryCommandV) -> Seq<u8> {
    spec_str_fld(0x0A, c.entity_name) + spec_varint_fld(0x10, spec_type_code(c.entity_type))
        + match c.command {
        DiscoveryCommand::Register { port } => spec_msg_fld(
            0x1A,
            spec_varint_fld(0x08, port as nat),
        ),
        DiscoveryCommand::Heartbeat => spec_msg_fld(0x22, Seq::empty()),
        DiscoveryCommand::Unregister => spec_msg_fld(0x2A, Seq::empty()),
    }
}

/// Decode the command one-of at the end of a discovery request.
pub open spec fn spec_dec_discovery_cmd(s: Seq<u8>) -> Option<DiscoveryCommand> {
    if s.len() >= 1 && s[0] == 0x1A {
        match spec_parse_msg_fld(s, 0x1A) {
            Some(p) => if p.1 == s.len() {
                match spec_parse_varint_fld(p.0, 0x08) {
                    Some(q) => if q.1 == p.0.len() && q.0 < 0x1_0000_0000 {
                        Some(DiscoveryCommand::Register { port: q.0 as u32 })
                    } else {
                        None
                    },
                    None => None,
                }
            } else {
                None
            },
            None => None,
        }
    } else if s.len() >= 1 && s[0] == 0x22 {
        match spec_parse_msg_fld(s, 0x22) {
            Some(p) => if p.1 == s.len() && p.0.len() == 0 {
                Some(DiscoveryCommand::Heartbeat)
            } else {
                None
            },
            None => None,
        }
    } else if s.len() >= 1 && s[0] == 0x2A {
        match spec_parse_msg_fld(s, 0x2A) {
            Some(p) => if p.1 == s.len() && p.0.len() == 0 {
                Some(DiscoveryCommand::Unregister)
            } else {
                None
            },
            None => None,
        }
    } else {
        None
    }
}

/// Decode a discovery-request body; the body must be consumed exactly.
pub open spec fn spec_dec_discovery(s: Seq<u8>) -> Option<EntityDiscoveryCommandV> {
    match spec_parse_str_fld(s, 0x0A) {
        None => None,
        Some((name, k1)) => {
            let s1 = s.skip(k1);
            match spec_parse_varint_fld(s1, 0x10) {
                None => None,
                Some((tc, k2)) => {
                    if tc == 0 || tc == 1 {
                        let entity_type = if tc == 0 {
                            EntityType::Sensor
                        } else {
                            EntityType::Actuator
                        };
                        match spec_dec_discovery_cmd(s1.skip(k2)) {
                            Some(command) => Some(
                                EntityDiscoveryCommandV { entity_name: name, entity_type, command },
                            ),
                            None => None,
                        }
                    } else {
                        None
                    }
                },
            }
        },
    }
}

/// Discovery-request round trip.
pub proof fn lemma_discovery_roundtrip(c: EntityDiscoveryCommandV)
    requires
        str_ok(c.entity_name),
    ensures
        spec_dec_discovery(spec_enc_discovery(c)) == Some(c),
{
    let s = spec_enc_discovery(c);
    let f1 = spec_str_fld(0x0A, c.entity_name);
    let f2 = spec_varint_fld(0x10, spec_type_code(c.entity_type));
    let f3 = match c.command {
        DiscoveryCommand::Register { port } => spec_msg_fld(
            0x1A,
            spec_varint_fld(0x08, port as nat),
        ),
        DiscoveryCommand::Heartbeat => spec_msg_fld(0x22, Seq::empty()),
        DiscoveryCommand::Unregister => spec_msg_fld(0x2A, Seq::empty()),
    };
    assert(s =~= f1 + (f2 + f3));
    lemma_str_fld_roundtrip(0x0A, c.entity_name, f2 + f3);
    assert(s.skip(f1.len() as int) =~= f2 + f3);
    lemma_varint_fld_roundtrip(0x10, spec_type_code(c.entity_type), f3);
    assert((f2 + f3).skip(f2.len() as int) =~= f3);
    match c.command {
        DiscoveryCommand::Register { port } => {
            let body = spec_varint_fld(0x08, port as nat);
            lemma_varint_fld_roundtrip(0x08, port as nat, Seq::empty());
            assert(body + Seq::<u8>::empty() =~= body);
            assert(body.len() <= 11) by {
                crate::wire::lemma_varint_fits(port as nat);
            }
            lemma_msg_fld_roundtrip(0x1A, body, Seq::empty());
            assert(f3 + Seq::<u8>::empty() =~= f3);
        },
        DiscoveryCommand::Heartbeat => {
            lemma_msg_fld_roundtrip(0x22, Seq::empty(), Seq::empty());
            assert(f3 + Seq::<u8>::empty() =~= f3);
        },
        DiscoveryCommand::Unregister => {
            lemma_msg_fld_roundtrip(0x2A, Seq::empty(), Seq::empty());
            assert(f3 + Seq::<u8>::empty() =~= f3);
        },
    }
}

/// Encode a discovery request.
pub fn encode_discovery(c: &EntityDiscoveryCommand) -> (r: Vec<u8>)
    ensures
        r@ == spec_enc_discovery(c@),
{
    let mut out: Vec<u8> = Vec::new();
    encode_str_fld(&mut out, 0x0A, c.entity_name.as_str());
    let tc: u64 = match c.entity_type {
        EntityType::Sensor => 0,
        EntityType::Actuator => 1,
    };
    encode_varint_fld(&mut out, 0x10, tc);
    match &c.command {
        DiscoveryCommand::Register { port } => {
            let mut body: Vec<u8> = Vec::new();
            encode_varint_fld(&mut body, 0x08, *port as u64);
            encode_msg_fld(&mut out, 0x1A, &body);
        },
        DiscoveryCommand::Heartbeat => {
            let body: Vec<u8> = Vec::new();
            encode_msg_fld(&mut out, 0x22, &body);
        },
        DiscoveryCommand::Unregister => {
            let body: Vec<u8> = Vec::new();
            encode_msg_fld(&mut out, 0x2A, &body);
        },
    }
    proof {
        assert(out@ =~= spec_enc_discovery(c@));
    }
    out
}

/// Decode a discovery request.
pub fn decode_discovery(data: &Vec<u8>) -> (r: Option<EntityDiscoveryCommand>)
    ensures
        match spec_dec_discovery(data@) {
            None => r is None,
            Some(v) => r matches Some(c) && c@ == v,
        },
{
    proof {
        assert(data@.skip(0) =~= data@);
    }
    let (name, p1) = match read_str_fld(data, 0, 0x0A) {
        Option::None => {
            return None;
        },
        Option::Some(x) => x,
    };
    proof {
        assert(data@.skip(0).skip(p1 as int) =~= data@.skip(p1 as int));
    }
    let (tc, p2) = match read_varint_fld(data, p1, 0x10) {
        Option::None => {
            return None;
        },
        Option::Some(x) => x,
    };
    if tc > 1 {
        return None;
    }
    let entity_type = if tc == 0 {
        EntityType::Sensor
    } else {
        EntityType::Actuator
    };
    proof {
        assert(data@.skip(p1 as int).skip((p2 - p1) as int) =~= data@.skip(p2 as int));
    }
    let ghost s2 = data@.skip(p2 as int);
    let command: DiscoveryCommand;
    if p2 < data.len() && data[p2] == 0x1A {
        proof {
            assert(s2[0] == 0x1A);
        }
        let (body, p3) = match read_msg_fld(data, p2, 0x1A) {
            Option::None => {
                return None;
            },
            Option::Some(x) => x,
        };
        if p3 != data.len() {
            return None;
        }
        proof {
            assert(body@.skip(0) =~= body@);
        }
        let (port, q) = match read_varint_fld(&body, 0, 0x08) {
            Option::None => {
                return None;
            },
            Option::Some(x) => x,
        };
        if q != body.len() || port >= 0x1_0000_0000u64 {
            return None;
        }
        command = DiscoveryCommand::Register { port: port as u32 };
    } else if p2 < data.len() && data[p2] == 0x22 {
        proof {
            assert(s2[0] == 0x22);
            assert(s2.len() >= 1);
        }
        let (body, p3) = match read_msg_fld(data, p2, 0x22) {
            Option::None => {
                return None;
            },
            Option::Some(x) => x,
        };
        if p3 != data.len() || body.len() != 0 {
            return None;
        }
        command = DiscoveryCommand::Heartbeat;
    } else if p2 < data.len() && data[p2] == 0x2A {
        proof {
            assert(s2[0] == 0x2A);
        }
        let (body, p3) = match read_msg_fld(data, p2, 0x2A) {
            Option::None => {
                return None;
            },
            Option::Some(x) => x,
        };
        if p3 != data.len() || body.len() != 0 {
            return None;
        }
        command = DiscoveryCommand::Unregister;
    } else {
        proof {
            if s2.len() >= 1 {
                assert(s2[0] == data@[p2 as int]);
            }
        }
        return None;
    }
    Some(EntityDiscoveryCommand { entity_name: name, entity_type, command })
}

/// The encoding of a discovery request is small.
pub proof fn lemma_enc_discovery_len(c: EntityDiscoveryCommandV)
    requires
        str_ok(c.entity_name),
    ensures
        spec_enc_discovery(c).len() < 0x4000_0000,
{
    lemma_str_fld_len(0x0A, c.entity_name);
    crate::wire::lemma_varint_fits(spec_type_code(c.entity_type));
    match c.command {
        DiscoveryCommand::Register { port } => {
            crate::wire::lemma_varint_fits(port as nat);
            lemma_msg_fld_len(0x1A, spec_varint_fld(0x08, port as nat));
        },
        DiscoveryCommand::Heartbeat => {
            lemma_msg_fld_len(0x22, Seq::empty());
        },
        DiscoveryCommand::Unregister => {
            lemma_msg_fld_len(0x2A, Seq::empty());
        },
    }
}

/// The encoding of a response code is small.
pub proof fn lemma_enc_response_len(c: ResponseCode)
    ensures
        spec_enc_response(c).len() < 0x100,
{
    crate::wire::lemma_varint_fits(spec_code_value(c));
}

/// The canonical encoding of a sensor sample: the unit, then the reading
/// as a one-of of single-value submessages.
pub open spec fn spec_enc_measurement(m: SensorMeasurementV) -> Seq<u8> {
    spec_str_fld(0x0A, m.unit) + match m.value {
        Measurement::Temperature { bits } => spec_msg_fld(0x12, spec_fixed32_fld(0x0D, bits)),
        Measurement::Humidity { bits } => spec_msg_fld(0x1A, spec_fixed32_fld(0x0D, bits)),
    }
}

/// Decode the reading one-of at the end of a sensor sample.
pub open spec fn spec_dec_measurement_value(s: Seq<u8>) -> Option<Measurement> {
    if s.len() >= 1 && (s[0] == 0x12 || s[0] == 0x1A) {
        let tag = s[0];
        match spec_parse_msg_fld(s, tag) {
            Some(p) => if p.1 == s.len() {
                match spec_parse_fixed32_fld(p.0, 0x0D) {
                    Some(q) => if q.1 == p.0.len() {
                        if tag == 0x12 {
                            Some(Measurement::Temperature { bits: q.0 })
                        } else {
                            Some(Measurement::Humidity { bits: q.0 })
                        }
                    } else {
                        None
                    },
                    None => None,
                }
            } else {
                None
            },
            None => None,
        }
    } else {
        None
    }
}

/// Decode a sensor-sample body; the body must be consumed exactly.
pub open spec fn spec_dec_measurement(s: Seq<u8>) -> Option<SensorMeasurementV> {
    match spec_parse_str_fld(s, 0x0A) {
        None => None,
        Some((unit, k1)) => {
            match spec_dec_measurement_value(s.skip(k1)) {
                Some(value) => Some(SensorMeasurementV { unit, value }),
                None => None,
            }
        },
    }
}

/// Sensor-sample round trip.
pub proof fn lemma_measurement_roundtrip(m: SensorMeasurementV)
    requires
        str_ok(m.unit),
    ensures
        spec_dec_measurement(spec_enc_measurement(m)) == Some(m),
{
    let f1 = spec_str_fld(0x0A, m.unit);
    let f2 = match m.value {
        Measurement::Temperature { bits } => spec_msg_fld(0x12, spec_fixed32_fld(0x0D, bits)),
        Measurement::Humidity { bits } => spec_msg_fld(0x1A, spec_fixed32_fld(0x0D, bits)),
    };
    let s = spec_enc_measurement(m);
    assert(s =~= f1 + f2);
    lemma_str_fld_roundtrip(0x0A, m.unit, f2);
    assert(s.skip(f1.len() as int) =~= f2);
    match m.value {
        Measurement::Temperature { bits } => {
            lemma_fixed32_fld_roundtrip(0x0D, bits, Seq::empty());
            assert(spec_fixed32_fld(0x0D, bits) + Seq::<u8>::empty() =~= spec_fixed32_fld(
                0x0D,
                bits,
            ));
            lemma_msg_fld_roundtrip(0x12, spec_fixed32_fld(0x0D, bits), Seq::empty());
            assert(f2 + Seq::<u8>::empty() =~= f2);
        },
        Measurement::Humidity { bits } => {
            lemma_fixed32_fld_roundtrip(0x0D, bits, Seq::empty());
            assert(spec_fixed32_fld(0x0D, bits) + Seq::<u8>::empty() =~= spec_fixed32_fld(
                0x0D,
                bits,
            ));
            lemma_msg_fld_roundtrip(0x1A, spec_fixed32_fld(0x0D, bits), Seq::empty());
            assert(f2 + Seq::<u8>::empty() =~= f2);
        },
    }
}

/// Encode a sensor sample.
pub fn encode_measurement(m: &SensorMeasurement) -> (r: Vec<u8>)
    ensures
        r@ == spec_enc_measurement(m@),
{
    let mut out: Vec<u8> = Vec::new();
    encode_str_fld(&mut out, 0x0A, m.unit.as_str());
    let mut body: Vec<u8> = Vec::new();
    match m.value {
        Measurement::Temperature { bits } => {
            encode_fixed32_fld(&mut body, 0x0D, bits);
            encode_msg_fld(&mut out, 0x12, &body);
        },
        Measurement::Humidity { bits } => {
            encode_fixed32_fld(&mut body, 0x0D, bits);
            encode_msg_fld(&mut out, 0x1A, &body);
        },
    }
    proof {
        assert(out@ =~= spec_enc_measurement(m@));
    }
    out
}

/// Decode a sensor sample.
pub fn decode_measurement(data: &Vec<u8>) -> (r: Option<SensorMeasurement>)
    ensures
        match spec_dec_measurement(data@) {
            None => r is None,
            Some(v) => r matches Some(m) && m@ == v,
        },
{
    proof {
        assert(data@.skip(0) =~= data@);
    }
    let (unit, p1) = match read_str_fld(data, 0, 0x0A) {
        Option::None => {
            return None;
        },
        Option::Some(x) => x,
    };
    proof {
        assert(data@.skip(0).skip(p1 as int) =~= data@.skip(p1 as int));
    }
    let ghost s1 = data@.skip(p1 as int);
    if p1 >= data.len() {
        return None;
    }
    let tag = data[p1];
    proof {
        assert(s1[0] == tag);
    }
    if tag != 0x12 && tag != 0x1A {
        return None;
    }
    let (body, p2) = match read_msg_fld(data, p1, tag) {
        Option::None => {
            return None;
        },
        Option::Some(x) => x,
    };
    if p2 != data.len() {
        return None;
    }
    proof {
        assert(body@.skip(0) =~= body@);
    }
    let (bits, q) = match read_fixed32_fld(&body, 0, 0x0D) {
        Option::None => {
            return None;
        },
        Option::Some(x) => x,
    };
    if q != body.len() {
        return None;
    }
    let value = if tag == 0x12 {
        Measurement::Temperature { bits }
    } else {
        Measurement::Humidity { bits }
    };
    Some(SensorMeasurement { unit, value })
}

/// The canonical encoding of an actuator state: a one-of of single-value
/// submessages.
pub open spec fn spec_enc_actuator(a: ActuatorState) -> Seq<u8> {
    match a {
        ActuatorState::Light { brightness } => spec_msg_fld(
            0x0A,
            spec_fixed32_fld(0x0D, brightness),
        ),
        ActuatorState::AirConditioning { on } => spec_msg_fld(
            0x12,
            spec_varint_fld(
                0x08,
                if on {
                    1nat
                } else {
                    0nat
                },
            ),
        ),
    }
}

/// Decode an actuator-state body; the body must be consumed exactly.
pub open spec fn spec_dec_actuator(s: Seq<u8>) -> Option<ActuatorState> {
    if s.len() >= 1 && s[0] == 0x0A {
        match spec_parse_msg_fld(s, 0x0A) {
            Some(p) => if p.1 == s.len() {
                match spec_parse_fixed32_fld(p.0, 0x0D) {
                    Some(q) => if q.1 == p.0.len() {
                        Some(ActuatorState::Light { brightness: q.0 })
                    } else {
                        None
                    },
                    None => None,
                }
            } else {
                None
            },
            None => None,
        }
    } else if s.len() >= 1 && s[0] == 0x12 {
        match spec_parse_msg_fld(s, 0x12) {
            Some(p) => if p.1 == s.len() {
                match spec_parse_varint_fld(p.0, 0x08) {
                    Some(q) => if q.1 == p.0.len() && (q.0 == 0 || q.0 == 1) {
                        Some(ActuatorState::AirConditioning { on: q.0 == 1 })
                    } else {
                        None
                    },
                    None => None,
                }
            } else {
                None
            },
            None => None,
        }
    } else {
        None
    }
}

/// Actuator-state round trip.
pub proof fn lemma_actuator_roundtrip(a: ActuatorState)
    ensures
        spec_dec_actuator(spec_enc_actuator(a)) == Some(a),
{
    match a {
        ActuatorState::Light { brightness } => {
            lemma_fixed32_fld_roundtrip(0x0D, brightness, Seq::empty());
            assert(spec_fixed32_fld(0x0D, brightness) + Seq::<u8>::empty() =~= spec_fixed32_fld(
                0x0D,
                brightness,
            ));
            lemma_msg_fld_roundtrip(0x0A, spec_fixed32_fld(0x0D, brightness), Seq::empty());
            assert(spec_enc_actuator(a) + Seq::<u8>::empty() =~= spec_enc_actuator(a));
        },
        ActuatorState::AirConditioning { on } => {
            let v = if on {
                1nat
            } else {
                0nat
            };
            lemma_varint_fld_roundtrip(0x08, v, Seq::empty());
            assert(spec_varint_fld(0x08, v) + Seq::<u8>::empty() =~= spec_varint_fld(0x08, v));
            assert(spec_varint_fld(0x08, v).len() <= 11) by {
                crate::wire::lemma_varint_fits(v);
            }
            lemma_msg_fld_roundtrip(0x12, spec_varint_fld(0x08, v), Seq::empty());
            assert(spec_enc_actuator(a) + Seq::<u8>::empty() =~= spec_enc_actuator(a));
        },
    }
}

/// Encode an actuator state.
pub fn encode_actuator(a: &ActuatorState) -> (r: Vec<u8>)
    ensures
        r@ == spec_enc_actuator(*a),
{
    let mut out: Vec<u8> = Vec::new();
    let mut body: Vec<u8> = Vec::new();
    match a {
        ActuatorState::Light { brightness } => {
            encode_fixed32_fld(&mut body, 0x0D, *brightness);
            encode_msg_fld(&mut out, 0x0A, &body);
        },
        ActuatorState::AirConditioning { on } => {
            let v: u64 = if *on {
                1
            } else {
                0
            };
            encode_varint_fld(&mut body, 0x08, v);
            encode_msg_fld(&mut out, 0x12, &body);
        },
    }
    proof {
        assert(out@ =~= spec_enc_actuator(*a));
    }
    out
}

/// Decode an actuator state.
pub fn decode_actuator(data: &Vec<u8>) -> (r: Option<ActuatorState>)
    ensures
        match spec_dec_actuator(data@) {
            None => r is None,
            Some(v) => r == Some(v),
        },
{
    proof {
        assert(data@.skip(0) =~= data@);
    }
    if data.len() == 0 {
        return None;
    }
    let tag = data[0];
    if tag == 0x0A {
        let (body, p) = match read_msg_fld(data, 0, 0x0A) {
            Option::None => {
                return None;
            },
            Option::Some(x) => x,
        };
        if p != data.len() {
            return None;
        }
        proof {
            assert(body@.skip(0) =~= body@);
        }
        let (bits, q) = match read_fixed32_fld(&body, 0, 0x0D) {
            Option::None => {
                return None;
            },
            Option::Some(x) => x,
        };
        if q != body.len() {
            return None;
        }
        Some(ActuatorState::Light { brightness: bits })
    } else if tag == 0x12 {
        let (body, p) = match read_msg_fld(data, 0, 0x12) {
            Option::None => {
                return None;
            },
            Option::Some(x) => x,
        };
        if p != data.len() {
            return None;
        }
        proof {
            assert(body@.skip(0) =~= body@);
        }
        let (v, q) = match read_varint_fld(&body, 0, 0x08) {
            Option::None => {
                return None;
            },
            Option::Some(x) => x,
        };
        if q != body.len() || v > 1 {
            return None;
        }
        Some(ActuatorState::AirConditioning { on: v == 1 })
    } else {
        None
    }
}

/// The canonical encoding of a published sample: a one-of over the two
/// sample kinds.
pub open spec fn spec_enc_publish(d: PublishDataV) -> Seq<u8> {
    match d {
        PublishDataV::Measurement(m) => spec_msg_fld(0x0A, spec_enc_measurement(m)),
        PublishDataV::ActuatorState(a) => spec_msg_fld(0x12, spec_enc_actuator(a)),
    }
}

/// Decode a published-sample body; the body must be consumed exactly.
pub open spec fn spec_dec_publish(s: Seq<u8>) -> Option<PublishDataV> {
    if s.len() >= 1 && s[0] == 0x0A {
        match spec_parse_msg_fld(s, 0x0A) {
            Some(p) => if p.1 == s.len() {
                match spec_dec_measurement(p.0) {
                    Some(m) => Some(PublishDataV::Measurement(m)),
                    None => None,
                }
            } else {
                None
            },
            None => None,
        }
    } else if s.len() >= 1 && s[0] == 0x12 {
        match spec_parse_msg_fld(s, 0x12) {
            Some(p) => if p.1 == s.len() {
                match spec_dec_actuator(p.0) {
                    Some(a) => Some(PublishDataV::ActuatorState(a)),
                    None => None,
                }
            } else {
                None
            },
            None => None,
        }
    } else {
        None
    }
}

/// A sample's strings are small enough to encode.
pub open spec fn wf_publish(d: PublishDataV) -> bool {
    match d {
        PublishDataV::Measurement(m) => str_ok(m.unit),
        PublishDataV::ActuatorState(_) => true,
    }
}

/// The encoding of a sensor sample is small.
pub proof fn lemma_enc_measurement_len(m: SensorMeasurementV)
    requires
        str_ok(m.unit),
    ensures
        spec_enc_measurement(m).len() < 0x2000_0000,
{
    crate::wire::lemma_varint_fits(encode_utf8(m.unit).len());
    match m.value {
        Measurement::Temperature { bits } => {
            lemma_fixed32_fld_roundtrip(0x0D, bits, Seq::empty());
            crate::wire::lemma_varint_fits(5);
        },
        Measurement::Humidity { bits } => {
            lemma_fixed32_fld_roundtrip(0x0D, bits, Seq::empty());
            crate::wire::lemma_varint_fits(5);
        },
    }
}

/// The encoding of an actuator state is small.
pub proof fn lemma_enc_actuator_len(a: ActuatorState)
    ensures
        spec_enc_actuator(a).len() < 0x100,
{
    match a {
        ActuatorState::Light { brightness } => {
            lemma_fixed32_fld_roundtrip(0x0D, brightness, Seq::empty());
            crate::wire::lemma_varint_fits(5);
        },
        ActuatorState::AirConditioning { on } => {
            let v = if on {
                1nat
            } else {
                0nat
            };
            crate::wire::lemma_varint_fits(v);
            crate::wire::lemma_varint_fits(spec_varint_fld(0x08, v).len() as nat);
        },
    }
}

/// The encoding of a published sample is small.
pub proof fn lemma_enc_publish_len(d: PublishDataV)
    requires
        wf_publish(d),
    ensures
        spec_enc_publish(d).len() < 0x4000_0000,
{
    match d {
        PublishDataV::Measurement(m) => {
            lemma_enc_measurement_len(m);
            lemma_msg_fld_len(0x0A, spec_enc_measurement(m));
        },
        PublishDataV::ActuatorState(a) => {
            lemma_enc_actuator_len(a);
            lemma_msg_fld_len(0x12, spec_enc_actuator(a));
        },
    }
}

/// Published-sample round trip.
pub proof fn lemma_publish_roundtrip(d: PublishDataV)
    requires
        wf_publish(d),
    ensures
        spec_dec_publish(spec_enc_publish(d)) == Some(d),
{
    match d {
        PublishDataV::Measurement(m) => {
            lemma_enc_measurement_len(m);
            lemma_msg_fld_roundtrip(0x0A, spec_enc_measurement(m), Seq::empty());
            assert(spec_enc_publish(d) + Seq::<u8>::empty() =~= spec_enc_publish(d));
            lemma_measurement_roundtrip(m);
        },
        PublishDataV::ActuatorState(a) => {
            lemma_enc_actuator_len(a);
            lemma_msg_fld_roundtrip(0x12, spec_enc_actuator(a), Seq::empty());
            assert(spec_enc_publish(d) + Seq::<u8>::empty() =~= spec_enc_publish(d));
            lemma_actuator_roundtrip(a);
        },
    }
}

/// Encode a published sample.
pub fn encode_publish(d: &PublishData) -> (r: Vec<u8>)
    ensures
        r@ == spec_enc_publish(d@),
{
    let mut out: Vec<u8> = Vec::new();
    match d {
        PublishData::Measurement(m) => {
            let body = encode_measurement(m);
            encode_msg_fld(&mut out, 0x0A, &body);
        },
        PublishData::ActuatorState(a) => {
            let body = encode_actuator(a);
            encode_msg_fld(&mut out, 0x12, &body);
        },
    }
    proof {
        assert(out@ =~= spec_enc_publish(d@));
    }
    out
}

/// Decode a published sample.
pub fn decode_publish(data: &Vec<u8>) -> (r: Option<PublishData>)
    ensures
        match spec_dec_publish(data@) {
            None => r is None,
            Some(v) => r matches Some(d) && d@ == v,
        },
{
    proof {
        assert(data@.skip(0) =~= data@);
    }
    if data.len() == 0 {
        return None;
    }
    let tag = data[0];
    if tag == 0x0A {
        let (body, p) = match read_msg_fld(data, 0, 0x0A) {
            Option::None => {
                return None;
            },
            Option::Some(x) => x,
        };
        if p != data.len() {
            return None;
        }
        match decode_measurement(&body) {
            Option::None => Option::None,
            Option::Some(m) => Some(PublishData::Measurement(m)),
        }
    } else if tag == 0x12 {
        let (body, p) = match read_msg_fld(data, 0, 0x12) {
            Option::None => {
                return None;
            },
            Option::Some(x) => x,
        };
        if p != data.len() {
            return None;
        }
        match decode_actuator(&body) {
            Option::None => Option::None,
            Option::Some(a) => Some(PublishData::ActuatorState(a)),
        }
    } else {
        None
    }
}

/// The canonical encoding of a named state update: the target's name, then
/// the payload as a one-of.
pub open spec fn spec_enc_named(n: NamedEntityStateV) -> Seq<u8> {
    spec_str_fld(0x0A, n.entity_name) + match n.state {
        EntityStatePayload::ActuatorState(a) => spec_msg_fld(0x12, spec_enc_actuator(a)),
        EntityStatePayload::SensorConfiguration { update_frequency_hz } => spec_msg_fld(
            0x1A,
            spec_fixed32_fld(0x0D, update_frequency_hz),
        ),
    }
}

/// Decode the payload one-of at the end of a named state update.
pub open spec fn spec_dec_named_state(s: Seq<u8>) -> Option<EntityStatePayload> {
    if s.len() >= 1 && s[0] == 0x12 {
        match spec_parse_msg_fld(s, 0x12) {
            Some(p) => if p.1 == s.len() {
                match spec_dec_actuator(p.0) {
                    Some(a) => Some(EntityStatePayload::ActuatorState(a)),
                    None => None,
                }
            } else {
                None
            },
            None => None,
        }
    } else if s.len() >= 1 && s[0] == 0x1A {
        match spec_parse_msg_fld(s, 0x1A) {
            Some(p) => if p.1 == s.len() {
                match spec_parse_fixed32_fld(p.0, 0x0D) {
                    Some(q) => if q.1 == p.0.len() {
                        Some(
                            EntityStatePayload::SensorConfiguration {
                                update_frequency_hz: q.0,
                            },
                        )
                    } else {
                        None
                    },
                    None => None,
                }
            } else {
                None
            },
            None => None,
        }
    } else {
        None
    }
}

/// Decode a named-state-update body; the body must be consumed exactly.
pub open spec fn spec_dec_named(s: Seq<u8>) -> Option<NamedEntityStateV> {
    match spec_parse_str_fld(s, 0x0A) {
        None => None,
        Some((entity_name, k1)) => {
            match spec_dec_named_state(s.skip(k1)) {
                Some(state) => Some(NamedEntityStateV { entity_name, state }),
                None => None,
            }
        },
    }
}

/// Named-state-update round trip.
pub proof fn lemma_named_roundtrip(n: NamedEntityStateV)
    requires
        str_ok(n.entity_name),
    ensures
        spec_dec_named(spec_enc_named(n)) == Some(n),
{
    let f1 = spec_str_fld(0x0A, n.entity_name);
    let f2 = match n.state {
        EntityStatePayload::ActuatorState(a) => spec_msg_fld(0x12, spec_enc_actuator(a)),
        EntityStatePayload::SensorConfiguration { update_frequency_hz } => spec_msg_fld(
            0x1A,
            spec_fixed32_fld(0x0D, update_frequency_hz),
        ),
    };
    let s = spec_enc_named(n);
    assert(s =~= f1 + f2);
    lemma_str_fld_roundtrip(0x0A, n.entity_name, f2);
    assert(s.skip(f1.len() as int) =~= f2);
    match n.state {
        EntityStatePayload::ActuatorState(a) => {
            lemma_enc_actuator_len(a);
            lemma_msg_fld_roundtrip(0x12, spec_enc_actuator(a), Seq::empty());
            assert(f2 + Seq::<u8>::empty() =~= f2);
            lemma_actuator_roundtrip(a);
        },
        EntityStatePayload::SensorConfiguration { update_frequency_hz } => {
            lemma_fixed32_fld_roundtrip(0x0D, update_frequency_hz, Seq::empty());
            assert(spec_fixed32_fld(0x0D, update_frequency_hz) + Seq::<u8>::empty()
                =~= spec_fixed32_fld(0x0D, update_frequency_hz));
            lemma_msg_fld_roundtrip(
                0x1A,
                spec_fixed32_fld(0x0D, update_frequency_hz),
                Seq::empty(),
            );
            assert(f2 + Seq::<u8>::empty() =~= f2);
        },
    }
}

/// Encode a named state update.
pub fn encode_named(n: &NamedEntityState) -> (r: Vec<u8>)
    ensures
        r@ == spec_enc_named(n@),
{
    let mut out: Vec<u8> = Vec::new();
    encode_str_fld(&mut out, 0x0A, n.entity_name.as_str());
    match &n.state {
        EntityStatePayload::ActuatorState(a) => {
            let body = encode_actuator(a);
            encode_msg_fld(&mut out, 0x12, &body);
        },
        EntityStatePayload::SensorConfiguration { update_frequency_hz } => {
            let mut body: Vec<u8> = Vec::new();
            encode_fixed32_fld(&mut body, 0x0D, *update_frequency_hz);
            encode_msg_fld(&mut out, 0x1A, &body);
        },
    }
    proof {
        assert(out@ =~= spec_enc_named(n@));
    }
    out
}

/// Decode a named state update.
pub fn decode_named(data: &Vec<u8>) -> (r: Option<NamedEntityState>)
    ensures
        match spec_dec_named(data@) {
            None => r is None,
            Some(v) => r matches Some(n) && n@ == v,
        },
{
    proof {
        assert(data@.skip(0) =~= data@);
    }
    let (entity_name, p1) = match read_str_fld(data, 0, 0x0A) {
        Option::None => {
            return None;
        },
        Option::Some(x) => x,
    };
    proof {
        assert(data@.skip(0).skip(p1 as int) =~= data@.skip(p1 as int));
    }
    let ghost s1 = data@.skip(p1 as int);
    if p1 >= data.len() {
        return None;
    }
    let tag = data[p1];
    proof {
        assert(s1[0] == tag);
    }
    if tag == 0x12 {
        let (body, p2) = match read_msg_fld(data, p1, 0x12) {
            Option::None => {
                return None;
            },
            Option::Some(x) => x,
        };
        if p2 != data.len() {
            return None;
        }
        match decode_actuator(&body) {
            Option::None => Option::None,
            Option::Some(a) => Some(
                NamedEntityState { entity_name, state: EntityStatePayload::ActuatorState(a) },
            ),
        }
    } else if tag == 0x1A {
        let (body, p2) = match read_msg_fld(data, p1, 0x1A) {
            Option::None => {
                return None;
            },
            Option::Some(x) => x,
        };
        if p2 != data.len() {
            return None;
        }
        proof {
            assert(body@.skip(0) =~= body@);
        }
        let (hz, q) = match read_fixed32_fld(&body, 0, 0x0D) {
            Option::None => {
                return None;
            },
            Option::Some(x) => x,
        };
        if q != body.len() {
            return None;
        }
        Some(
            NamedEntityState {
                entity_name,
                state: EntityStatePayload::SensorConfiguration { update_frequency_hz: hz },
            },
        )
    } else {
        None
    }
}

/// A named state update's strings are small enough to encode.
pub open spec fn wf_named(n: NamedEntityStateV) -> bool {
    str_ok(n.entity_name)
}

/// The encoding of a named state update is small.
pub proof fn lemma_enc_named_len(n: NamedEntityStateV)
    requires
        wf_named(n),
    ensures
        spec_enc_named(n).len() < 0x2000_0000,
{
    crate::wire::lemma_varint_fits(encode_utf8(n.entity_name).len());
    match n.state {
        EntityStatePayload::ActuatorState(a) => {
            lemma_enc_actuator_len(a);
            crate::wire::lemma_varint_fits(spec_enc_actuator(a).len());
        },
        EntityStatePayload::SensorConfiguration { update_frequency_hz } => {
            lemma_fixed32_fld_roundtrip(0x0D, update_frequency_hz, Seq::empty());
            crate::wire::lemma_varint_fits(5);
        },
    }
}

/// The canonical encoding of a client request: a one-of over query and
/// action.
pub open spec fn spec_enc_client(c: ClientApiCommandV) -> Seq<u8> {
    match c {
        ClientApiCommandV::Query => spec_msg_fld(0x0A, Seq::empty()),
        ClientApiCommandV::Action(n) => spec_msg_fld(0x12, spec_enc_named(n)),
    }
}

/// Decode a client-request body; the body must be consumed exactly.
pub open spec fn spec_dec_client(s: Seq<u8>) -> Option<ClientApiCommandV> {
    if s.len() >= 1 && s[0] == 0x0A {
        match spec_parse_msg_fld(s, 0x0A) {
            Some(p) => if p.1 == s.len() && p.0.len() == 0 {
                Some(ClientApiCommandV::Query)
            } else {
                None
            },
            None => None,
        }
    } else if s.len() >= 1 && s[0] == 0x12 {
        match spec_parse_msg_fld(s, 0x12) {
            Some(p) => if p.1 == s.len() {
                match spec_dec_named(p.0) {
                    Some(n) => Some(ClientApiCommandV::Action(n)),
                    None => None,
                }
            } else {
                None
            },
            None => None,
        }
    } else {
        None
    }
}

/// A client request's strings are small enough to encode.
pub open spec fn wf_client(c: ClientApiCommandV) -> bool {
    match c {
        ClientApiCommandV::Query => true,
        ClientApiCommandV::Action(n) => wf_named(n),
    }
}

/// The encoding of a client request is small.
pub proof fn lemma_enc_client_len(c: ClientApiCommandV)
    requires
        wf_client(c),
    ensures
        spec_enc_client(c).len() < 0x4000_0000,
{
    match c {
        ClientApiCommandV::Query => {
            lemma_msg_fld_len(0x0A, Seq::empty());
        },
        ClientApiCommandV::Action(n) => {
            lemma_enc_named_len(n);
            lemma_msg_fld_len(0x12, spec_enc_named(n));
        },
    }
}

/// Client-request round trip.
pub proof fn lemma_client_roundtrip(c: ClientApiCommandV)
    requires
        wf_client(c),
    ensures
        spec_dec_client(spec_enc_client(c)) == Some(c),
{
    match c {
        ClientApiCommandV::Query => {
            lemma_msg_fld_roundtrip(0x0A, Seq::empty(), Seq::empty());
            assert(spec_enc_client(c) + Seq::<u8>::empty() =~= spec_enc_client(c));
        },
        ClientApiCommandV::Action(n) => {
            lemma_enc_named_len(n);
            lemma_msg_fld_roundtrip(0x12, spec_enc_named(n), Seq::empty());
            assert(spec_enc_client(c) + Seq::<u8>::empty() =~= spec_enc_client(c));
            lemma_named_roundtrip(n);
        },
    }
}

/// Encode a client request.
pub fn encode_client(c: &ClientApiCommand) -> (r: Vec<u8>)
    ensures
        r@ == spec_enc_client(c@),
{
    let mut out: Vec<u8> = Vec::new();
    match c {
        ClientApiCommand::Query => {
            let body: Vec<u8> = Vec::new();
            encode_msg_fld(&mut out, 0x0A, &body);
        },
        ClientApiCommand::Action(n) => {
            let body = encode_named(n);
            encode_msg_fld(&mut out, 0x12, &body);
        },
    }
    proof {
        assert(out@ =~= spec_enc_client(c@));
    }
    out
}

/// Decode a client request.
pub fn decode_client(data: &Vec<u8>) -> (r: Option<ClientApiCommand>)
    ensures
        match spec_dec_client(data@) {
            None => r is None,
            Some(v) => r matches Some(c) && c@ == v,
        },
{
    proof {
        assert(data@.skip(0) =~= data@);
    }
    if data.len() == 0 {
        return None;
    }
    let tag = data[0];
    if tag == 0x0A {
        let (body, p) = match read_msg_fld(data, 0, 0x0A) {
            Option::None => {
                return None;
            },
            Option::Some(x) => x,
        };
        if p != data.len() || body.len() != 0 {
            return None;
        }
        Some(ClientApiCommand::Query)
    } else if tag == 0x12 {
        let (body, p) = match read_msg_fld(data, 0, 0x12) {
            Option::None => {
                return None;
            },
            Option::Some(x) => x,
        };
        if p != data.len() {
            return None;
        }
        match decode_named(&body) {
            Option::None => Option::None,
            Option::Some(n) => Some(ClientApiCommand::Action(n)),
        }
    } else {
        None
    }
}

/// Parse a tagged 32-bit field at the given position.
pub fn read_fixed32_fld(data: &Vec<u8>, pos: usize, tag: u8) -> (r: Option<(u32, usize)>)
    requires
        pos <= data@.len(),
    ensures
        match spec_parse_fixed32_fld(data@.skip(pos as int), tag) {
            None => r is None,
            Some(p) => r matches Some(q) && q.0 == p.0 && q.1 == pos + p.1,
        },
        r matches Some(q) ==> pos < q.1 <= data@.len(),
{
    if pos >= data.len() {
        return None;
    }
    if data[pos] != tag {
        proof {
            assert(data@.skip(pos as int)[0] == data@[pos as int]);
        }
        return None;
    }
    proof {
        assert(data@.skip(pos as int)[0] == tag);
        assert(data@.skip(pos as int).skip(1) =~= data@.skip(pos + 1));
    }
    crate::wire::read_fixed32(data, pos + 1)
}

} // verus!
