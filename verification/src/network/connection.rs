//! Framing of chat packets on a TCP stream:
//! `[type: 1][body_len: 4, LE][body: body_len]`.

use vstd::prelude::*;
use vstd::bytes::*;
use vstd::slice::*;
use vstd::utf8::*;
use crate::protocol::{PACKET_TEXT, PACKET_IMAGE};
use crate::text::{append_bytes, string_from_utf8};

verus! {

/// A packet received from a peer.
pub enum IncomingPacket {
    Text(String),
    Image(Vec<u8>),
}

/// The mathematical content of an [`IncomingPacket`].
pub enum PacketView {
    Text(Seq<char>),
    Image(Seq<u8>),
}

impl View for IncomingPacket {
    type V = PacketView;

    open spec fn view(&self) -> PacketView {
        match self {
            IncomingPacket::Text(s) => PacketView::Text(s@),
            IncomingPacket::Image(b) => PacketView::Image(b@),
        }
    }
}

/// The view of an optional packet.
pub open spec fn opt_packet_view(p: Option<IncomingPacket>) -> Option<PacketView> {
    match p {
        Some(p) => Some(p@),
        None => None,
    }
}

/// The length field written for a body of `n` bytes: the low 32 bits of `n`.
pub open spec fn body_len_field(n: nat) -> u32 {
    (n % 0x1_0000_0000) as u32
}

/// The bytes of a frame.
pub open spec fn spec_encode_packet(packet_type: u8, body: Seq<u8>) -> Seq<u8> {
    seq![packet_type] + spec_u32_to_le_bytes(body_len_field(body.len())) + body
}

/// How a reader splits the front of a stream into tag, body and the rest;
/// `None` when the stream ends before the frame does.
pub open spec fn spec_split_frame(stream: Seq<u8>) -> Option<(u8, Seq<u8>, Seq<u8>)> {
    if stream.len() < 5 {
        None
    } else {
        let n = spec_u32_from_le_bytes(stream.subrange(1, 5)) as int;
        if stream.len() < 5 + n {
            None
        } else {
            Some((stream[0], stream.subrange(5, 5 + n), stream.subrange(5 + n, stream.len() as int)))
        }
    }
}

/// What a frame body decodes to. A text body that is not valid UTF-8 reads
/// as the empty text; an unknown tag gives `None`.
pub open spec fn spec_decode_packet(packet_type: u8, body: Seq<u8>) -> Option<PacketView> {
    if packet_type == PACKET_TEXT {
        Some(
            PacketView::Text(
                if valid_utf8(body) {
                    decode_utf8(body)
                } else {
                    Seq::empty()
                },
            ),
        )
    } else if packet_type == PACKET_IMAGE {
        Some(PacketView::Image(body))
    } else {
        None
    }
}

/// Frames a body under the given tag. A body of 2^32 bytes or more gets a
/// length field holding only the low 32 bits of its length.
pub fn encode_packet(packet_type: u8, body: &[u8]) -> (r: Vec<u8>)
    ensures
        r@ == spec_encode_packet(packet_type, body@),
{
    let mut r: Vec<u8> = Vec::new();
    r.push(packet_type);
    let len64: u64 = body.len() as u64;
    let field: u32 = (len64 % 0x1_0000_0000) as u32;
    let mut len = u32_to_le_bytes(field);
    r.append(&mut len);
    append_bytes(&mut r, body);
    r
}

/// The frame that carries a text message.
pub fn encode_text(text: &str) -> (r: Vec<u8>)
    ensures
        r@ == spec_encode_packet(PACKET_TEXT, encode_utf8(text@)),
{
    encode_packet(PACKET_TEXT, text.as_bytes())
}

/// The frame that carries a picture.
pub fn encode_image(image_bytes: &[u8]) -> (r: Vec<u8>)
    ensures
        r@ == spec_encode_packet(PACKET_IMAGE, image_bytes@),
{
    encode_packet(PACKET_IMAGE, image_bytes)
}

/// The body length announced by the four length bytes of a frame header.
pub fn body_len(len_bytes: &[u8]) -> (r: usize)
    requires
        len_bytes@.len() == 4,
    ensures
        r == spec_u32_from_le_bytes(len_bytes@),
{
    u32_from_le_bytes(len_bytes) as usize
}

/// Interprets a received body according to its tag; see [`spec_decode_packet`].
pub fn decode_packet(packet_type: u8, body: Vec<u8>) -> (r: Option<IncomingPacket>)
    ensures
        opt_packet_view(r) == spec_decode_packet(packet_type, body@),
{
    if packet_type == PACKET_TEXT {
        let text = match string_from_utf8(body) {
            Some(s) => s,
            None => String::new(),
        };
        Some(IncomingPacket::Text(text))
    } else if packet_type == PACKET_IMAGE {
        Some(IncomingPacket::Image(body))
    } else {
        None
    }
}

/// A frame is read back as its own tag and body, whatever follows it on the
/// stream, when the body is shorter than 2^32 bytes.
pub proof fn law_frame_roundtrip(packet_type: u8, body: Seq<u8>, rest: Seq<u8>)
    requires
        body.len() < 0x1_0000_0000,
    ensures
        spec_split_frame(spec_encode_packet(packet_type, body) + rest) == Some(
            (packet_type, body, rest),
        ),
{
    lemma_auto_spec_u32_to_from_le_bytes();
    let len = spec_u32_to_le_bytes(body_len_field(body.len()));
    let s = spec_encode_packet(packet_type, body) + rest;
    assert(body_len_field(body.len()) == body.len());
    assert(s.subrange(1, 5) =~= len);
    assert(s.subrange(5, 5 + body.len() as int) =~= body);
    assert(s.subrange(5 + body.len() as int, s.len() as int) =~= rest);
}

/// A text frame decodes to the text that was sent.
pub proof fn law_text_roundtrip(text: Seq<char>)
    ensures
        spec_decode_packet(PACKET_TEXT, encode_utf8(text)) == Some(PacketView::Text(text)),
{
    broadcast use vstd::utf8::encode_utf8_valid_utf8, vstd::utf8::encode_utf8_decode_utf8;

}

/// A picture frame decodes to the bytes that were sent.
pub proof fn law_image_roundtrip(image: Seq<u8>)
    ensures
        spec_decode_packet(PACKET_IMAGE, image) == Some(PacketView::Image(image)),
{
}

} // verus!
