//! The Source RCON wire format and the exchange that runs one command.
//!
//! A packet is a little-endian `i32` length followed by that many bytes:
//! request id (`i32`), packet type (`i32`), the body, and two NUL bytes.
//! One command is one exchange: authenticate with the admin password, then
//! send the command and read its reply. The socket work stays with the
//! caller, which feeds each reply to [`command_step`].

use vstd::prelude::*;
use vstd::slice::slice_subrange;
use vstd::string::*;
use vstd::utf8::*;

use crate::text;

verus! {

/// Packet type of an authentication request.
pub const SERVERDATA_AUTH: i32 = 3;

/// Packet type of a command request.
pub const SERVERDATA_EXECCOMMAND: i32 = 2;

/// Request id used for the authentication packet.
pub const AUTH_ID: i32 = 1;

/// Request id used for the command packet.
pub const CMD_ID: i32 = 2;

/// The smallest and largest length field a reply may carry.
pub const MIN_PACKET_LEN: i32 = 10;

pub const MAX_PACKET_LEN: i32 = 4096;

// ---------------------------------------------------------------------------
// Integers on the wire
// ---------------------------------------------------------------------------

/// `i32::to_le_bytes`.
pub open spec fn le_bytes(x: i32) -> Seq<u8> {
    let u = x as u32;
    seq![u as u8, (u >> 8) as u8, (u >> 16) as u8, (u >> 24) as u8]
}

/// `i32::from_le_bytes` of the first four bytes of `b`.
pub open spec fn from_le(b: Seq<u8>) -> i32 {
    ((b[0] as u32) | ((b[1] as u32) << 8) | ((b[2] as u32) << 16) | ((b[3] as u32) << 24)) as i32
}

/// Reading back four bytes that `le_bytes` wrote gives the number written.
pub proof fn lemma_le_roundtrip(x: i32)
    ensures
        le_bytes(x).len() == 4,
        from_le(le_bytes(x)) == x,
{
    let u = x as u32;
    let b0 = u as u8;
    let b1 = (u >> 8) as u8;
    let b2 = (u >> 16) as u8;
    let b3 = (u >> 24) as u8;
    assert(((b0 as u32) | ((b1 as u32) << 8) | ((b2 as u32) << 16) | ((b3 as u32) << 24)) == u)
        by (bit_vector)
        requires
            b0 == u as u8,
            b1 == (u >> 8) as u8,
            b2 == (u >> 16) as u8,
            b3 == (u >> 24) as u8,
    ;
    assert((u as i32) == x) by (bit_vector)
        requires
            u == x as u32,
    ;
}

fn push_le(v: &mut Vec<u8>, x: i32)
    ensures
        final(v)@ == old(v)@ + le_bytes(x),
{
    let u = x as u32;
    v.push(u as u8);
    v.push((u >> 8) as u8);
    v.push((u >> 16) as u8);
    v.push((u >> 24) as u8);
    assert(final(v)@ =~= old(v)@ + le_bytes(x));
}

fn read_le(b: &[u8]) -> (x: i32)
    requires
        b@.len() >= 4,
    ensures
        x == from_le(b@),
{
    ((b[0] as u32) | ((b[1] as u32) << 8) | ((b[2] as u32) << 16) | ((b[3] as u32) << 24)) as i32
}

// ---------------------------------------------------------------------------
// Packets
// ---------------------------------------------------------------------------

/// Everything after the length field: id, type, UTF-8 body, two NULs.
pub open spec fn payload(id: i32, kind: i32, body: Seq<char>) -> Seq<u8> {
    le_bytes(id) + le_bytes(kind) + encode_utf8(body) + seq![0u8, 0u8]
}

/// A whole packet; the length field is the payload length cast to `i32`.
pub open spec fn packet(id: i32, kind: i32, body: Seq<char>) -> Seq<u8> {
    le_bytes(payload(id, kind, body).len() as i32) + payload(id, kind, body)
}

/// Builds the packet for request `id` of type `kind` carrying `body`.
pub fn encode(id: i32, kind: i32, body: &str) -> (p: Vec<u8>)
    ensures
        p@ == packet(id, kind, body@),
{
    let mut payload_bytes: Vec<u8> = Vec::new();
    push_le(&mut payload_bytes, id);
    push_le(&mut payload_bytes, kind);
    let b = body.as_bytes();
    let ghost before = payload_bytes@;
    let mut i: usize = 0;
    while i < b.len()
        invariant
            i <= b@.len(),
            b@ == encode_utf8(body@),
            payload_bytes@ == before + b@.subrange(0, i as int),
        decreases b@.len() - i,
    {
        payload_bytes.push(b[i]);
        assert(before + b@.subrange(0, i + 1) =~= (before + b@.subrange(0, i as int)).push(
            b@[i as int],
        ));
        i = i + 1;
    }
    assert(b@.subrange(0, b@.len() as int) =~= b@);
    payload_bytes.push(0);
    payload_bytes.push(0);
    assert(payload_bytes@ =~= payload(id, kind, body@));
    let mut p: Vec<u8> = Vec::new();
    push_le(&mut p, payload_bytes.len() as i32);
    let ghost head = p@;
    let mut j: usize = 0;
    while j < payload_bytes.len()
        invariant
            j <= payload_bytes@.len(),
            p@ == head + payload_bytes@.subrange(0, j as int),
        decreases payload_bytes@.len() - j,
    {
        p.push(payload_bytes[j]);
        assert(head + payload_bytes@.subrange(0, j + 1) =~= (head + payload_bytes@.subrange(
            0,
            j as int,
        )).push(payload_bytes@[j as int]));
        j = j + 1;
    }
    assert(payload_bytes@.subrange(0, payload_bytes@.len() as int) =~= payload_bytes@);
    assert(p@ =~= packet(id, kind, body@));
    p
}

/// The length field of a reply is acceptable.
pub open spec fn length_ok(n: i32) -> bool {
    MIN_PACKET_LEN <= n <= MAX_PACKET_LEN
}

/// The refusal of a length field outside `10..=4096`.
pub open spec fn bogus_length_message(n: i32) -> Seq<char> {
    "bogus RCON packet length: "@ + text::signed_dec(n as int)
}

/// Checks the length field of a reply (its first four bytes) and returns the
/// number of bytes that follow it.
pub fn packet_length(len_bytes: &[u8]) -> (r: Result<usize, String>)
    requires
        len_bytes@.len() == 4,
    ensures
        length_ok(from_le(len_bytes@)) ==> r == Ok::<usize, String>(from_le(len_bytes@) as usize),
        !length_ok(from_le(len_bytes@)) ==> r is Err && r->Err_0@ == bogus_length_message(
            from_le(len_bytes@),
        ),
{
    let n = read_le(len_bytes);
    if MIN_PACKET_LEN <= n && n <= MAX_PACKET_LEN {
        Ok(n as usize)
    } else {
        let d = text::signed_dec_string(n);
        Err(text::concat("bogus RCON packet length: ", d.as_str()))
    }
}

/// The bytes of the body inside the part of a reply after its length field:
/// from after the id and type up to the two trailing NULs.
pub open spec fn body_bytes(buf: Seq<u8>) -> Seq<u8> {
    buf.subrange(8, buf.len() - 2)
}

/// Splits the part of a reply after its length field into request id and
/// body text. `buf` holds at least the 10 bytes that `packet_length` admits.
pub fn packet_body(buf: &[u8]) -> (r: (i32, String))
    requires
        buf@.len() >= 10,
    ensures
        r.0 == from_le(buf@),
        r.1@ == text::utf8_lossy(body_bytes(buf@)),
        valid_utf8(body_bytes(buf@)) ==> r.1@ == decode_utf8(body_bytes(buf@)),
{
    let id = read_le(buf);
    let body_end = buf.len() - 2;
    let b = slice_subrange(buf, 8, body_end);
    let body = text::from_utf8_lossy(b);
    (id, body)
}

/// Law: a packet that `encode` built reads back through `packet_length` and
/// `packet_body` as the id and body it was built from, whenever its body
/// fits the reply size limit (at most 4086 bytes of UTF-8).
pub proof fn lemma_packet_roundtrip(id: i32, kind: i32, body: Seq<char>)
    requires
        encode_utf8(body).len() <= 4086,
    ensures
        ({
            let p = packet(id, kind, body);
            let n = from_le(p);
            &&& n as int == p.len() - 4
            &&& length_ok(n)
            &&& p.subrange(0, 4) == le_bytes(n)
            &&& from_le(p.skip(4)) == id
            &&& valid_utf8(body_bytes(p.skip(4)))
            &&& decode_utf8(body_bytes(p.skip(4))) == body
        }),
{
    let pl = payload(id, kind, body);
    let p = packet(id, kind, body);
    let len = pl.len() as i32;
    assert(pl.len() == 8 + encode_utf8(body).len() + 2);
    lemma_le_roundtrip(len);
    lemma_le_roundtrip(id);
    assert(p.subrange(0, 4) =~= le_bytes(len));
    assert(from_le(p) == from_le(le_bytes(len)));
    assert(p.skip(4) =~= pl);
    assert(from_le(pl) == from_le(le_bytes(id)));
    assert(body_bytes(pl) =~= encode_utf8(body));
    encode_utf8_valid_utf8(body);
    encode_utf8_decode_utf8(body);
}

/// Law: the length prefix of an encoded packet counts every byte after it,
/// whenever that count fits in an `i32`.
pub proof fn lemma_length_prefix(id: i32, kind: i32, body: Seq<char>)
    requires
        encode_utf8(body).len() + 10 <= i32::MAX,
    ensures
        from_le(packet(id, kind, body)) as int == packet(id, kind, body).len() - 4,
{
    let pl = payload(id, kind, body);
    let p = packet(id, kind, body);
    lemma_le_roundtrip(pl.len() as i32);
    assert(p.subrange(0, 4) =~= le_bytes(pl.len() as i32));
    assert(from_le(p) == from_le(le_bytes(pl.len() as i32)));
}

// ---------------------------------------------------------------------------
// One command: authenticate, then run it
// ---------------------------------------------------------------------------

/// Where an exchange stands: waiting for the reply to the authentication
/// packet, or for the reply to the command.
#[derive(Clone, Copy, PartialEq, Eq, Debug)]
pub enum RconStage {
    Authenticating,
    Commanding,
}

/// What to do next: send a packet and await its reply, or finish.
pub enum RconStep {
    Send(RconStage, Vec<u8>),
    Finish(Result<String, String>),
}

/// The error of a refused password.
pub open spec fn auth_failed_message() -> Seq<char> {
    "RCON authentication failed (wrong admin password?)"@
}

/// Opens an exchange: the authentication packet carries the password.
pub fn command_start(password: &str) -> (r: (RconStage, Vec<u8>))
    ensures
        r.0 == RconStage::Authenticating,
        r.1@ == packet(AUTH_ID, SERVERDATA_AUTH, password@),
{
    (RconStage::Authenticating, encode(AUTH_ID, SERVERDATA_AUTH, password))
}

/// Takes the reply (`reply_id`, `reply_body`) that came back in `stage`.
/// A reply id of -1 to the authentication packet means the password was
/// refused; any other id lets the command go out. The reply to the command
/// is the result.
pub fn command_step(stage: RconStage, reply_id: i32, reply_body: String, cmd: &str) -> (r: RconStep)
    ensures
        stage == RconStage::Authenticating && reply_id == -1 ==> r is Finish && r->Finish_0 is Err
            && r->Finish_0->Err_0@ == auth_failed_message(),
        stage == RconStage::Authenticating && reply_id != -1 ==> r is Send && r->Send_0
            == RconStage::Commanding && r->Send_1@ == packet(CMD_ID, SERVERDATA_EXECCOMMAND, cmd@),
        stage == RconStage::Commanding ==> r is Finish && r->Finish_0 is Ok && r->Finish_0->Ok_0@
            == reply_body@,
{
    match stage {
        RconStage::Authenticating => {
            if reply_id == -1 {
                RconStep::Finish(Err(text::owned("RCON authentication failed (wrong admin password?)")))
            } else {
                RconStep::Send(RconStage::Commanding, encode(CMD_ID, SERVERDATA_EXECCOMMAND, cmd))
            }
        },
        RconStage::Commanding => RconStep::Finish(Ok(reply_body)),
    }
}

} // verus!
