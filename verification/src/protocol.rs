//! The discovery announcement datagram and the packet type tags.
//!
//! An announcement is laid out as
//! `[type: 1][session_id: 8, LE][name_len: 2, LE][nickname: name_len][tcp_port: 2, LE][status: 1]`.

use vstd::prelude::*;
use vstd::bytes::*;
use vstd::slice::*;
use vstd::utf8::*;
use crate::text::{append_bytes, string_from_utf8};

verus! {

/// Packet tag of a discovery announcement.
pub const PACKET_ANNOUNCE: u8 = 0x01;

/// Packet tag of a chat text message.
pub const PACKET_TEXT: u8 = 0x02;

/// Packet tag of a picture.
pub const PACKET_IMAGE: u8 = 0x03;

/// Presence of a user, as carried by the status byte of an announcement.
#[derive(Clone, Copy, Debug, PartialEq, Eq, Structural)]
pub enum Status {
    Online,
    Away,
    Invisible,
}

/// The status byte that stands for `s`.
pub open spec fn status_byte(s: Status) -> u8 {
    match s {
        Status::Online => 0,
        Status::Away => 1,
        Status::Invisible => 2,
    }
}

/// The status that a byte stands for; unknown bytes read as online.
pub open spec fn status_of_byte(b: u8) -> Status {
    if b == 1 {
        Status::Away
    } else if b == 2 {
        Status::Invisible
    } else {
        Status::Online
    }
}

/// The status that follows `s` when the user cycles through them.
pub open spec fn status_after(s: Status) -> Status {
    match s {
        Status::Online => Status::Away,
        Status::Away => Status::Invisible,
        Status::Invisible => Status::Online,
    }
}

impl Status {
    /// Encodes the status as its byte.
    pub fn to_u8(self) -> (r: u8)
        ensures
            r == status_byte(self),
    {
        match self {
            Status::Online => 0,
            Status::Away => 1,
            Status::Invisible => 2,
        }
    }

    /// Decodes a status byte; bytes other than 1 and 2 read as `Online`.
    pub fn from_u8(b: u8) -> (r: Status)
        ensures
            r == status_of_byte(b),
    {
        if b == 1 {
            Status::Away
        } else if b == 2 {
            Status::Invisible
        } else {
            Status::Online
        }
    }

    /// The next status in the cycle Online, Away, Invisible.
    pub fn next(self) -> (r: Status)
        ensures
            r == status_after(self),
    {
        match self {
            Status::Online => Status::Away,
            Status::Away => Status::Invisible,
            Status::Invisible => Status::Online,
        }
    }
}

/// Decoding the byte of a status gives the status back.
pub proof fn law_status_byte_roundtrip(s: Status)
    ensures
        status_of_byte(status_byte(s)) == s,
{
}

/// Cycling through the statuses returns to the start after three steps, and
/// never stays in place.
pub proof fn law_status_cycle(s: Status)
    ensures
        status_after(status_after(status_after(s))) == s,
        status_after(s) != s,
{
}

/// What a peer announces about itself on the discovery port.
pub struct Announce {
    pub session_id: u64,
    pub nickname: String,
    pub tcp_port: u16,
    pub status: u8,
}

/// The mathematical content of an [`Announce`].
pub struct AnnounceView {
    pub session_id: u64,
    pub nickname: Seq<char>,
    pub tcp_port: u16,
    pub status: u8,
}

impl View for Announce {
    type V = AnnounceView;

    open spec fn view(&self) -> AnnounceView {
        AnnounceView {
            session_id: self.session_id,
            nickname: self.nickname@,
            tcp_port: self.tcp_port,
            status: self.status,
        }
    }
}

/// The view of an optional announcement.
pub open spec fn opt_announce_view(a: Option<Announce>) -> Option<AnnounceView> {
    match a {
        Some(a) => Some(a@),
        None => None,
    }
}

/// The length field written for a nickname of `n` bytes: the low 16 bits of `n`.
pub open spec fn name_len_field(n: nat) -> u16 {
    (n % 0x10000) as u16
}

/// The bytes of an announcement.
pub open spec fn spec_encode_announce(a: AnnounceView) -> Seq<u8> {
    let name = encode_utf8(a.nickname);
    seq![PACKET_ANNOUNCE] + spec_u64_to_le_bytes(a.session_id) + spec_u16_to_le_bytes(
        name_len_field(name.len()),
    ) + name + spec_u16_to_le_bytes(a.tcp_port) + seq![a.status]
}

/// What a datagram decodes to: `None` unless it starts with the announcement
/// tag, holds every field in full, and its nickname is valid UTF-8. Bytes after
/// the status byte are ignored.
pub open spec fn spec_decode_announce(data: Seq<u8>) -> Option<AnnounceView> {
    if data.len() < 11 || data[0] != PACKET_ANNOUNCE {
        None
    } else {
        let n = spec_u16_from_le_bytes(data.subrange(9, 11)) as int;
        let name = data.subrange(11, 11 + n);
        if data.len() < 14 + n || !valid_utf8(name) {
            None
        } else {
            Some(
                AnnounceView {
                    session_id: spec_u64_from_le_bytes(data.subrange(1, 9)),
                    nickname: decode_utf8(name),
                    tcp_port: spec_u16_from_le_bytes(data.subrange(11 + n, 13 + n)),
                    status: data[13 + n],
                },
            )
        }
    }
}

/// Serialises an announcement. A nickname longer than 65535 bytes gets a
/// length field holding only the low 16 bits of its length.
pub fn encode_announce(a: &Announce) -> (buf: Vec<u8>)
    ensures
        buf@ == spec_encode_announce(a@),
        buf@.len() == 14 + encode_utf8(a.nickname@).len(),
        buf@.last() == a.status,
{
    proof {
        law_announce_layout(a@);
    }
    proof {
        lemma_auto_spec_u64_to_from_le_bytes();
        lemma_auto_spec_u16_to_from_le_bytes();
    }
    let mut buf: Vec<u8> = Vec::new();
    buf.push(PACKET_ANNOUNCE);
    let mut sid = u64_to_le_bytes(a.session_id);
    buf.append(&mut sid);
    let name_bytes = a.nickname.as_str().as_bytes();
    let field: u16 = (name_bytes.len() % 65536) as u16;
    let mut len = u16_to_le_bytes(field);
    buf.append(&mut len);
    append_bytes(&mut buf, name_bytes);
    let mut port = u16_to_le_bytes(a.tcp_port);
    buf.append(&mut port);
    buf.push(a.status);
    buf
}

/// Parses an announcement datagram; see [`spec_decode_announce`].
pub fn decode_announce(data: &[u8]) -> (r: Option<Announce>)
    ensures
        opt_announce_view(r) == spec_decode_announce(data@),
        r matches Some(x) ==> x.status == data@[13 + spec_u16_from_le_bytes(data@.subrange(9, 11))],
{
    proof {
        law_announce_fields_read_verbatim(data@);
    }
    if data.len() == 0 || data[0] != PACKET_ANNOUNCE {
        return None;
    }
    if data.len() < 9 {
        return None;
    }
    let session_id = u64_from_le_bytes(slice_subrange(data, 1, 9));
    if data.len() < 11 {
        return None;
    }
    let name_len: usize = u16_from_le_bytes(slice_subrange(data, 9, 11)) as usize;
    if data.len() < 11 + name_len {
        return None;
    }
    let name_bytes = slice_to_vec(slice_subrange(data, 11, 11 + name_len));
    let nickname = match string_from_utf8(name_bytes) {
        Some(s) => s,
        None => {
            return None;
        },
    };
    if data.len() < 13 + name_len {
        return None;
    }
    let tcp_port = u16_from_le_bytes(slice_subrange(data, 11 + name_len, 13 + name_len));
    if data.len() < 14 + name_len {
        return None;
    }
    let status = data[13 + name_len];
    Some(Announce { session_id, nickname, tcp_port, status })
}

/// An announcement is written field by field in order: the tag, the session
/// id, the nickname's byte length, the nickname's UTF-8 bytes, the port, and
/// last the status byte exactly as given.
pub proof fn law_announce_layout(a: AnnounceView)
    ensures
        ({
            let s = spec_encode_announce(a);
            let name = encode_utf8(a.nickname);
            let n = name.len() as int;
            &&& s.len() == 14 + n
            &&& s[0] == PACKET_ANNOUNCE
            &&& s.subrange(1, 9) == spec_u64_to_le_bytes(a.session_id)
            &&& s.subrange(9, 11) == spec_u16_to_le_bytes(name_len_field(name.len()))
            &&& s.subrange(11, 11 + n) == name
            &&& s.subrange(11 + n, 13 + n) == spec_u16_to_le_bytes(a.tcp_port)
            &&& s[13 + n] == a.status
            &&& s.last() == a.status
        }),
{
    lemma_auto_spec_u64_to_from_le_bytes();
    lemma_auto_spec_u16_to_from_le_bytes();
    let s = spec_encode_announce(a);
    let name = encode_utf8(a.nickname);
    let n = name.len() as int;
    assert(s.subrange(1, 9) =~= spec_u64_to_le_bytes(a.session_id));
    assert(s.subrange(9, 11) =~= spec_u16_to_le_bytes(name_len_field(name.len())));
    assert(s.subrange(11, 11 + n) =~= name);
    assert(s.subrange(11 + n, 13 + n) =~= spec_u16_to_le_bytes(a.tcp_port));
}

/// A decoded announcement takes each field from its place in the datagram
/// as it stands: the status is the byte right after the port, the nickname
/// is what the bytes after the length field encode, and the id, length and
/// port fields are the little-endian bytes of the values read.
pub proof fn law_announce_fields_read_verbatim(d: Seq<u8>)
    ensures
        spec_decode_announce(d) matches Some(v) ==> {
            let n = spec_u16_from_le_bytes(d.subrange(9, 11)) as int;
            &&& d.len() >= 14 + n
            &&& d[0] == PACKET_ANNOUNCE
            &&& spec_u16_to_le_bytes(n as u16) == d.subrange(9, 11)
            &&& spec_u64_to_le_bytes(v.session_id) == d.subrange(1, 9)
            &&& encode_utf8(v.nickname) == d.subrange(11, 11 + n)
            &&& spec_u16_to_le_bytes(v.tcp_port) == d.subrange(11 + n, 13 + n)
            &&& v.status == d[13 + n]
        },
{
    lemma_auto_spec_u64_to_from_le_bytes();
    lemma_auto_spec_u16_to_from_le_bytes();
    if let Some(v) = spec_decode_announce(d) {
        let n = spec_u16_from_le_bytes(d.subrange(9, 11)) as int;
        vstd::utf8::decode_utf8_encode_utf8(d.subrange(11, 11 + n));
    }
}

/// Decoding an encoded announcement gives it back, whenever the nickname's
/// UTF-8 encoding fits the 16-bit length field.
pub proof fn law_announce_roundtrip(a: AnnounceView)
    requires
        encode_utf8(a.nickname).len() <= 0xffff,
    ensures
        spec_decode_announce(spec_encode_announce(a)) == Some(a),
{
    broadcast use vstd::utf8::encode_utf8_valid_utf8, vstd::utf8::encode_utf8_decode_utf8;

    lemma_auto_spec_u64_to_from_le_bytes();
    lemma_auto_spec_u16_to_from_le_bytes();
    let name = encode_utf8(a.nickname);
    let n = name.len() as int;
    let s = spec_encode_announce(a);
    let sid = spec_u64_to_le_bytes(a.session_id);
    let len = spec_u16_to_le_bytes(name_len_field(name.len()));
    let port = spec_u16_to_le_bytes(a.tcp_port);
    assert(name_len_field(name.len()) == n);
    assert(s.len() == 14 + n);
    assert(s.subrange(1, 9) =~= sid);
    assert(s.subrange(9, 11) =~= len);
    assert(s.subrange(11, 11 + n) =~= name);
    assert(s.subrange(11 + n, 13 + n) =~= port);
    assert(s[13 + n] == a.status);
}

} // verus!
