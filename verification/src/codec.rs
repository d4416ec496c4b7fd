//! SLIM framing of the SSL tunnel: every packet is a big-endian length, a
//! big-endian packet type and the payload. Control packets carry the text of
//! an S-expression followed by a NUL terminator; data packets carry raw IP
//! packets.

use vstd::prelude::*;
use vstd::utf8::{decode_utf8, encode_utf8, encode_utf8_decode_utf8, encode_utf8_valid_utf8, valid_utf8};
use bytes::BytesMut;

verus! {

/// Packet type of a control packet.
pub const PKT_CONTROL: u32 = 1;

/// Packet type of a data packet.
pub const PKT_DATA: u32 = 2;

#[verifier::external_type_specification]
#[verifier::external_body]
pub struct ExBytesMut(BytesMut);

/// The bytes a `BytesMut` buffer holds, in order.
pub uninterp spec fn buf_contents(b: BytesMut) -> Seq<u8>;

/// Number of bytes left in the buffer (`Buf::remaining` of `BytesMut`).
#[verifier::external_body]
fn buf_remaining(b: &BytesMut) -> (r: usize)
    ensures
        r == buf_contents(*b).len(),
{
    bytes::Buf::remaining(b)
}

/// A copy of `b[start..end]` (`BytesMut` dereferenced to its byte slice).
#[verifier::external_body]
fn buf_range(b: &BytesMut, start: usize, end: usize) -> (r: Vec<u8>)
    requires
        start <= end <= buf_contents(*b).len(),
    ensures
        r@ == buf_contents(*b).subrange(start as int, end as int),
{
    b[start..end].to_vec()
}

/// Drops the first `n` bytes (`Buf::advance` of `BytesMut`, which panics past
/// the end, hence the precondition).
#[verifier::external_body]
fn buf_advance(b: &mut BytesMut, n: usize)
    requires
        n <= buf_contents(*old(b)).len(),
    ensures
        buf_contents(*final(b)) == buf_contents(*old(b)).skip(n as int),
{
    bytes::Buf::advance(b, n)
}

/// Reserves room for `additional` more bytes (`BytesMut::reserve`); the
/// contents stay as they were. The call panics when the length plus
/// `additional` overflows `usize`, which the precondition leaves out; an
/// allocation beyond what the system grants aborts, which is not stated.
#[verifier::external_body]
fn buf_reserve(b: &mut BytesMut, additional: usize)
    requires
        buf_contents(*old(b)).len() + additional <= usize::MAX,
    ensures
        buf_contents(*final(b)) == buf_contents(*old(b)),
{
    b.reserve(additional)
}

/// Appends `data` (`BufMut::put_slice` of `BytesMut`). The same capacity
/// conditions as for [`buf_reserve`] apply.
#[verifier::external_body]
fn buf_put_slice(b: &mut BytesMut, data: &[u8])
    requires
        buf_contents(*old(b)).len() + data@.len() <= usize::MAX,
    ensures
        buf_contents(*final(b)) == buf_contents(*old(b)) + data@,
{
    bytes::BufMut::put_slice(b, data)
}

/// The characters `String::from_utf8_lossy` makes of `bytes`.
pub uninterp spec fn utf8_lossy(bytes: Seq<u8>) -> Seq<char>;

/// `String::from_utf8_lossy`, owned. Valid UTF-8 comes back unchanged;
/// invalid sequences become U+FFFD.
#[verifier::external_body]
pub(crate) fn from_utf8_lossy(bytes: &[u8]) -> (r: String)
    ensures
        r@ == utf8_lossy(bytes@),
        valid_utf8(bytes@) ==> r@ == decode_utf8(bytes@),
{
    String::from_utf8_lossy(bytes).into_owned()
}

/// A SLIM packet.
#[derive(Debug)]
pub enum SlimPacketType {
    /// A control packet: the text of an S-expression.
    Control(String),
    /// A data packet: one IP packet.
    Data(Vec<u8>),
}

/// Why a SLIM frame cannot be decoded.
#[derive(Debug, Clone, Copy, PartialEq, Eq)]
pub enum CodecError {
    /// The frame's packet type is neither control nor data.
    UnknownPacketType(u32),
}

/// The SLIM codec of the SSL tunnel.
pub struct SlimProtocolCodec;

/// The big-endian `u32` in `s[at..at + 4]`.
pub open spec fn be_u32(s: Seq<u8>, at: int) -> u32 {
    ((s[at] as int) * 0x100_0000 + (s[at + 1] as int) * 0x1_0000 + (s[at + 2] as int) * 0x100 + (
    s[at + 3] as int)) as u32
}

/// The big-endian bytes of `v`.
pub open spec fn be_bytes(v: u32) -> Seq<u8> {
    seq![(v / 0x100_0000) as u8, ((v / 0x1_0000) % 0x100) as u8, ((v / 0x100) % 0x100) as u8, (v % 0x100) as u8]
}

/// The payload of a frame whose contents are `s` and whose length field says `len`.
pub open spec fn frame_payload(s: Seq<u8>, len: int) -> Seq<u8> {
    s.subrange(8, 8 + len)
}

/// Text read from bytes: valid UTF-8 decoded, anything else with invalid
/// sequences replaced.
pub open spec fn lossy_text(bytes: Seq<u8>) -> Seq<char> {
    if valid_utf8(bytes) {
        decode_utf8(bytes)
    } else {
        utf8_lossy(bytes)
    }
}

/// The text a control payload carries: the payload without its NUL
/// terminator, read as UTF-8 with invalid sequences replaced.
pub open spec fn control_text(payload: Seq<u8>) -> Seq<char> {
    if payload.len() > 0 && payload.last() == 0 {
        lossy_text(payload.drop_last())
    } else {
        lossy_text(payload)
    }
}

/// The bytes that encode a packet: length, type, payload. A control
/// payload is the UTF-8 text plus a NUL terminator. The length field holds
/// the payload length modulo 2^32.
pub open spec fn spec_frame(p: SlimPacketType) -> Seq<u8> {
    match p {
        SlimPacketType::Control(s) => {
            let data = encode_utf8(s@).push(0u8);
            be_bytes((data.len() % 0x1_0000_0000) as u32) + be_bytes(PKT_CONTROL) + data
        },
        SlimPacketType::Data(d) => {
            be_bytes((d@.len() % 0x1_0000_0000) as u32) + be_bytes(PKT_DATA) + d@
        },
    }
}

fn read_be_u32(b: &[u8], at: usize) -> (r: u32)
    requires
        at + 4 <= b@.len(),
    ensures
        r == be_u32(b@, at as int),
{
    (b[at] as u32) * 0x100_0000u32 + (b[at + 1] as u32) * 0x1_0000u32 + (b[at + 2] as u32) * 0x100u32 + (b[at
        + 3] as u32)
}

pub(crate) fn write_be_u32(v: u32) -> (r: [u8; 4])
    ensures
        r@ == be_bytes(v),
{
    let r = [(v / 0x100_0000) as u8, ((v / 0x1_0000) % 0x100) as u8, ((v / 0x100) % 0x100) as u8, (v % 0x100) as u8];
    assert(r@ =~= be_bytes(v));
    r
}

proof fn lemma_be_roundtrip(v: u32)
    ensures
        be_u32(be_bytes(v), 0) == v,
{
    let b = be_bytes(v);
    assert(b[0] == (v / 0x100_0000) as u8);
    assert(b[1] == ((v / 0x1_0000) % 0x100) as u8);
    assert(b[2] == ((v / 0x100) % 0x100) as u8);
    assert(b[3] == (v % 0x100) as u8);
    assert(be_u32(b, 0) == v) by (nonlinear_arith)
        requires
            b[0] == (v / 0x100_0000) as u8,
            b[1] == ((v / 0x1_0000) % 0x100) as u8,
            b[2] == ((v / 0x100) % 0x100) as u8,
            b[3] == (v % 0x100) as u8,
            v <= u32::MAX,
    ;
}

impl SlimProtocolCodec {
    /// Decodes one packet from the front of `src`. While `src` holds less
    /// than a full frame nothing is consumed and `None` comes back; a full
    /// frame is consumed and returned; a frame of unknown type is refused and
    /// left in place.
    pub fn decode(&mut self, src: &mut BytesMut) -> (r: Result<Option<SlimPacketType>, CodecError>)
        ensures
            ({
                let s = buf_contents(*old(src));
                let len = if s.len() >= 4 { be_u32(s, 0) as int } else { 0 };
                if s.len() < 4 || s.len() < 8 + len {
                    &&& r == Ok::<Option<SlimPacketType>, CodecError>(None)
                    &&& buf_contents(*final(src)) == s
                } else if be_u32(s, 4) == PKT_CONTROL {
                    &&& r matches Ok(Some(SlimPacketType::Control(t)))
                    &&& t@ == control_text(frame_payload(s, len))
                    &&& buf_contents(*final(src)) == s.skip(8 + len)
                } else if be_u32(s, 4) == PKT_DATA {
                    &&& r matches Ok(Some(SlimPacketType::Data(d)))
                    &&& d@ == frame_payload(s, len)
                    &&& buf_contents(*final(src)) == s.skip(8 + len)
                } else {
                    &&& r == Err::<Option<SlimPacketType>, CodecError>(CodecError::UnknownPacketType(be_u32(s, 4)))
                    &&& buf_contents(*final(src)) == s
                }
            }),
    {
        let avail = buf_remaining(src);
        if avail < 4 {
            return Ok(None);
        }
        let head4 = buf_range(src, 0, 4);
        let len = read_be_u32(head4.as_slice(), 0);
        proof {
            assert(be_u32(head4@, 0) == be_u32(buf_contents(*src), 0));
        }
        if (avail as u64) < 8 + (len as u64) {
            return Ok(None);
        }
        let total = 8 + len as usize;
        let head8 = buf_range(src, 0, 8);
        let packet_type = read_be_u32(head8.as_slice(), 4);
        proof {
            assert(be_u32(head8@, 4) == be_u32(buf_contents(*src), 4));
        }
        if packet_type == PKT_CONTROL {
            let payload = buf_range(src, 8, total);
            let n = payload.len();
            let text = if n > 0 && payload[n - 1] == 0 {
                let body = buf_range(src, 8, total - 1);
                assert(body@ == payload@.drop_last());
                from_utf8_lossy(body.as_slice())
            } else {
                from_utf8_lossy(payload.as_slice())
            };
            buf_advance(src, total);
            Ok(Some(SlimPacketType::Control(text)))
        } else if packet_type == PKT_DATA {
            let data = buf_range(src, 8, total);
            buf_advance(src, total);
            Ok(Some(SlimPacketType::Data(data)))
        } else {
            Err(CodecError::UnknownPacketType(packet_type))
        }
    }

    /// Appends the frame of `item` to `dst`, keeping what `dst` already holds.
    pub fn encode(&mut self, item: SlimPacketType, dst: &mut BytesMut)
        requires
            buf_contents(*old(dst)).len() + spec_frame(item).len() <= usize::MAX,
        ensures
            buf_contents(*final(dst)) == buf_contents(*old(dst)) + spec_frame(item),
    {
        let ghost frame = spec_frame(item);
        let (data, packet_type) = match item {
            SlimPacketType::Control(expr) => {
                let text = expr.as_str().as_bytes();
                let mut data: Vec<u8> = Vec::new();
                let mut i: usize = 0;
                while i < text.len()
                    invariant
                        i <= text@.len(),
                        data@ == text@.take(i as int),
                    decreases text@.len() - i,
                {
                    data.push(text[i]);
                    assert(text@.take(i + 1) == text@.take(i as int).push(text@[i as int]));
                    i = i + 1;
                }
                assert(text@.take(text@.len() as int) == text@);
                data.push(0u8);
                (data, PKT_CONTROL)
            },
            SlimPacketType::Data(data) => (data, PKT_DATA),
        };
        assert(frame == be_bytes((data@.len() % 0x1_0000_0000) as u32) + be_bytes(packet_type) + data@);
        buf_reserve(dst, data.len() + 8);
        let wire_len: u32 = ((data.len() as u64) % 0x1_0000_0000u64) as u32;
        let data_len = write_be_u32(wire_len);
        let kind = write_be_u32(packet_type);
        buf_put_slice(dst, &data_len);
        buf_put_slice(dst, &kind);
        buf_put_slice(dst, data.as_slice());
        assert(buf_contents(*dst) =~= buf_contents(*old(dst)) + frame);
    }
}

/// Decoding the frame of a packet gives the packet back and consumes
/// exactly its frame, leaving whatever followed it: a control packet's text
/// survives the NUL terminator, a data packet's bytes survive unchanged.
pub proof fn law_decode_encode_roundtrip(p: SlimPacketType, rest: Seq<u8>)
    requires
        match p {
            SlimPacketType::Control(s) => encode_utf8(s@).len() + 1 < 0x1_0000_0000,
            SlimPacketType::Data(d) => d@.len() < 0x1_0000_0000,
        },
    ensures
        ({
            let s = spec_frame(p) + rest;
            let len = be_u32(s, 0) as int;
            &&& s.len() >= 8 + len
            &&& s.skip(8 + len) == rest
            &&& match p {
                SlimPacketType::Control(t) => be_u32(s, 4) == PKT_CONTROL && control_text(
                    frame_payload(s, len),
                ) == t@,
                SlimPacketType::Data(d) => be_u32(s, 4) == PKT_DATA && frame_payload(s, len) == d@,
            }
        }),
{
    let s = spec_frame(p) + rest;
    match p {
        SlimPacketType::Control(t) => {
            let data = encode_utf8(t@).push(0u8);
            let n = data.len();
            assert((n % 0x1_0000_0000) as u32 == n as u32);
            lemma_be_roundtrip(n as u32);
            lemma_be_roundtrip(PKT_CONTROL);
            let hdr = be_bytes(n as u32) + be_bytes(PKT_CONTROL);
            assert(s == hdr + data + rest);
            assert(be_u32(s, 0) == be_u32(be_bytes(n as u32), 0));
            assert(be_u32(s, 4) == be_u32(be_bytes(PKT_CONTROL), 0));
            assert(frame_payload(s, n as int) =~= data);
            assert(s.skip(8 + n as int) =~= rest);
            assert(data.drop_last() =~= encode_utf8(t@));
            encode_utf8_valid_utf8(t@);
            encode_utf8_decode_utf8(t@);
        },
        SlimPacketType::Data(d) => {
            let n = d@.len();
            lemma_be_roundtrip(n as u32);
            lemma_be_roundtrip(PKT_DATA);
            assert(be_u32(s, 0) == be_u32(be_bytes(n as u32), 0));
            assert(be_u32(s, 4) == be_u32(be_bytes(PKT_DATA), 0));
            assert(frame_payload(s, n as int) =~= d@);
            assert(s.skip(8 + n as int) =~= rest);
        },
    }
}

} // verus!
