//! The frame envelope: a 4-byte big-endian total length, a 4-byte marker that
//! names the routing header, the routing header, the length-prefixed command
//! name, the 4-byte sequence number, the body and a zero terminator.
use vstd::prelude::*;
use vstd::string::StringSliceAdditionalSpecFns;
use crate::buffer::{bytes_view, bytes_from_vec, bytes_as_slice};
use crate::packet::{BinWriter, Encrypt, Packet, PacketDetail};
use crate::tea::{
    Tea, encrypt_spec, decrypt_spec, decrypt_fails, lemma_cipher_round_trip, lemma_encrypt_len,
};
use crate::wire::{
    be_word, be_long, word_bytes, long_bytes, copy_range, read_u32_be, lemma_word_at,
    lemma_long_at,
};

verus! {

/// Marker of a frame routed by the account identity (an 8-byte header).
pub const UIN_MARKER: u32 = 0x0B;

/// Marker of a login frame, routed by its sequence number (a 4-byte header).
pub const LOGIN_MARKER: u32 = 0x0A;

/// The last byte of every frame.
pub const TERMINATOR: u8 = 0;

/// The routing header of a received frame.
#[derive(Debug, Clone, Copy, PartialEq, Eq, Structural)]
pub enum FrameRoute {
    /// Routed by this account identity.
    Uin(u64),
    /// A login frame.
    Login,
}

/// A frame taken apart.
#[derive(Debug)]
pub struct Frame {
    pub route: FrameRoute,
    pub seq: u32,
    pub command: Vec<u8>,
    pub body: Vec<u8>,
}

/// Why bytes could not be read as a frame.
#[derive(Debug, Clone, Copy, PartialEq, Eq, Structural)]
pub enum FramingError {
    /// The bytes end before the frame does: read more.
    Incomplete,
    /// The bytes cannot begin a frame: the connection is unusable.
    Malformed,
}

/// Route, sequence number, command name and body of a frame.
pub type FrameView = (FrameRoute, u32, Seq<u8>, Seq<u8>);

impl View for Frame {
    type V = FrameView;

    open spec fn view(&self) -> FrameView {
        (self.route, self.seq, self.command@, self.body@)
    }
}

pub open spec fn marker_of(d: PacketDetail) -> u32 {
    match d {
        PacketDetail::Uin => UIN_MARKER,
        PacketDetail::Login => LOGIN_MARKER,
    }
}

pub open spec fn route_header(d: PacketDetail, uin: u64, seq: u32) -> Seq<u8> {
    match d {
        PacketDetail::Uin => long_bytes(uin),
        PacketDetail::Login => word_bytes(seq),
    }
}

/// The route that a frame built for `d` and `uin` is read back with.
pub open spec fn route_of(d: PacketDetail, uin: u64) -> FrameRoute {
    match d {
        PacketDetail::Uin => FrameRoute::Uin(uin),
        PacketDetail::Login => FrameRoute::Login,
    }
}

/// The body as it travels: encrypted with the key, or as it is.
pub open spec fn wire_body(e: Encrypt, key: Seq<u32>, body: Seq<u8>) -> Seq<u8> {
    match e {
        Encrypt::UseD2Key => encrypt_spec(key, body),
        Encrypt::NoEncrypt => body,
    }
}

/// Everything of a frame after its length field.
pub open spec fn frame_tail(d: PacketDetail, uin: u64, seq: u32, cmd: Seq<u8>, body: Seq<u8>) -> Seq<
    u8,
> {
    word_bytes(marker_of(d)) + route_header(d, uin, seq) + word_bytes(cmd.len() as u32) + cmd
        + word_bytes(seq) + body + seq![TERMINATOR]
}

/// The bytes of a whole frame.
pub open spec fn frame_of(d: PacketDetail, uin: u64, seq: u32, cmd: Seq<u8>, body: Seq<u8>) -> Seq<
    u8,
> {
    word_bytes((frame_tail(d, uin, seq, cmd, body).len() + 4) as u32) + frame_tail(
        d,
        uin,
        seq,
        cmd,
        body,
    )
}

/// The frame that carries packet `p` under key `key`.
pub open spec fn encode_spec(p: &Packet, key: Seq<u32>) -> Seq<u8> {
    frame_of(p.packet_detail, p.uin, p.seq, p.command.spec_bytes(), wire_body(p.encrypt, key, p.body@))
}

/// The size of the routing header that marker `m` announces.
pub open spec fn header_len(m: u32) -> nat {
    if m == UIN_MARKER {
        8
    } else {
        4
    }
}

/// What `Frame::decode` makes of the bytes `s`: a frame and the number of
/// bytes it takes up, or the reason there is none.
pub open spec fn parse_frame(s: Seq<u8>) -> Result<(FrameView, nat), FramingError> {
    if s.len() < 4 {
        Err(FramingError::Incomplete)
    } else {
        let total = be_word(s, 0) as int;
        if total < 8 {
            Err(FramingError::Malformed)
        } else if s.len() < total {
            Err(FramingError::Incomplete)
        } else {
            let m = be_word(s, 4);
            let h = header_len(m) as int;
            if m != UIN_MARKER && m != LOGIN_MARKER {
                Err(FramingError::Malformed)
            } else if total < 8 + h + 4 {
                Err(FramingError::Malformed)
            } else {
                let cl = be_word(s, 8 + h) as int;
                let cmd_end = 8 + h + 4 + cl;
                if total < cmd_end + 4 + 1 {
                    Err(FramingError::Malformed)
                } else {
                    let seq = be_word(s, cmd_end);
                    if m == LOGIN_MARKER && be_word(s, 8) != seq {
                        Err(FramingError::Malformed)
                    } else if s[total - 1] != TERMINATOR {
                        Err(FramingError::Malformed)
                    } else {
                        let route = if m == UIN_MARKER {
                            FrameRoute::Uin(be_long(s, 8))
                        } else {
                            FrameRoute::Login
                        };
                        Ok(
                            (
                                (
                                    route,
                                    seq,
                                    s.subrange(8 + h + 4, cmd_end),
                                    s.subrange(cmd_end + 4, total - 1),
                                ),
                                total as nat,
                            ),
                        )
                    }
                }
            }
        }
    }
}

impl Packet {
    fn write_frame(&self, body: &[u8]) -> (r: bytes::Bytes)
        requires
            frame_of(self.packet_detail, self.uin, self.seq, self.command.spec_bytes(), body@).len()
                <= u32::MAX,
        ensures
            bytes_view(r) == frame_of(
                self.packet_detail,
                self.uin,
                self.seq,
                self.command.spec_bytes(),
                body@,
            ),
    {
        let cmd = self.command.as_bytes();
        let h: usize = match self.packet_detail {
            PacketDetail::Uin => 8,
            PacketDetail::Login => 4,
        };
        let total: usize = 4 + 4 + h + 4 + cmd.len() + 4 + body.len() + 1;
        let mut w = BinWriter::with_capacity(total);
        w.write_u32_be(total as u32);
        match self.packet_detail {
            PacketDetail::Uin => {
                w.write_u32_be(UIN_MARKER);
                w.write_u64_be(self.uin);
            },
            PacketDetail::Login => {
                w.write_u32_be(LOGIN_MARKER);
                w.write_u32_be(self.seq);
            },
        }
        w.write_u32_be(cmd.len() as u32);
        w.write_bytes(cmd);
        w.write_u32_be(self.seq);
        w.write_bytes(body);
        w.write_u8(TERMINATOR);
        assert(w@ =~= frame_of(
            self.packet_detail,
            self.uin,
            self.seq,
            self.command.spec_bytes(),
            body@,
        ));
        bytes_from_vec(w.into_vec())
    }

    /// The frame that carries this packet, its body encrypted with `key` when
    /// the packet asks for it.
    pub fn build_sso_packet(&self, key: &Tea) -> (r: bytes::Bytes)
        requires
            encode_spec(self, key@).len() <= u32::MAX,
        ensures
            bytes_view(r) == encode_spec(self, key@),
    {
        match self.encrypt {
            Encrypt::UseD2Key => {
                proof {
                    lemma_encrypt_len(key@, self.body@);
                }
                let enc = key.encrypt(self.body.as_slice());
                self.write_frame(bytes_as_slice(&enc))
            },
            Encrypt::NoEncrypt => self.write_frame(self.body.as_slice()),
        }
    }
}

impl Frame {
    /// Reads one frame from the start of `buf`: the frame and the number of
    /// bytes it takes up, or `Incomplete` when `buf` ends too early, or
    /// `Malformed` when `buf` cannot begin a frame.
    pub fn decode(buf: &[u8]) -> (r: Result<(Frame, usize), FramingError>)
        ensures
            r matches Ok((f, n)) ==> parse_frame(buf@) == Ok::<(FrameView, nat), FramingError>(
                (f@, n as nat),
            ),
            r matches Err(e) ==> parse_frame(buf@) == Err::<(FrameView, nat), FramingError>(e),
    {
        if buf.len() < 4 {
            return Err(FramingError::Incomplete);
        }
        let total = read_u32_be(buf, 0) as usize;
        if total < 8 {
            return Err(FramingError::Malformed);
        }
        if buf.len() < total {
            return Err(FramingError::Incomplete);
        }
        let m = read_u32_be(buf, 4);
        if m != UIN_MARKER && m != LOGIN_MARKER {
            return Err(FramingError::Malformed);
        }
        let h: usize = if m == UIN_MARKER { 8 } else { 4 };
        if total < 8 + h + 4 {
            return Err(FramingError::Malformed);
        }
        let cl = read_u32_be(buf, 8 + h) as u64;
        let cmd_end64 = (8 + h + 4) as u64 + cl;
        if (total as u64) < cmd_end64 + 4 + 1 {
            return Err(FramingError::Malformed);
        }
        let cmd_end = cmd_end64 as usize;
        let seq = read_u32_be(buf, cmd_end);
        if m == LOGIN_MARKER && read_u32_be(buf, 8) != seq {
            return Err(FramingError::Malformed);
        }
        if buf[total - 1] != TERMINATOR {
            return Err(FramingError::Malformed);
        }
        let route = if m == UIN_MARKER {
            let hi = read_u32_be(buf, 8) as u64;
            let lo = read_u32_be(buf, 12) as u64;
            FrameRoute::Uin((hi << 32u64) | lo)
        } else {
            FrameRoute::Login
        };
        let command = copy_range(buf, 8 + h + 4, cmd_end);
        let body = copy_range(buf, cmd_end + 4, total - 1);
        Ok((Frame { route, seq, command, body }, total))
    }
}

proof fn lemma_parse_frame_of(d: PacketDetail, uin: u64, seq: u32, cmd: Seq<u8>, body: Seq<u8>)
    requires
        frame_of(d, uin, seq, cmd, body).len() <= u32::MAX,
    ensures
        parse_frame(frame_of(d, uin, seq, cmd, body)) == Ok::<(FrameView, nat), FramingError>(
            (
                (route_of(d, uin), seq, cmd, body),
                frame_of(d, uin, seq, cmd, body).len(),
            ),
        ),
{
    let s = frame_of(d, uin, seq, cmd, body);
    let tail = frame_tail(d, uin, seq, cmd, body);
    let total = s.len() as int;
    let h: int = if d == PacketDetail::Uin { 8 } else { 4 };
    let cl = cmd.len() as int;
    let cmd_end = 8 + h + 4 + cl;
    assert(route_header(d, uin, seq).len() == h);
    assert(total == cmd_end + 4 + body.len() + 1);
    assert(s.subrange(0, 4) =~= word_bytes((tail.len() + 4) as u32));
    lemma_word_at(s, 0, (tail.len() + 4) as u32);
    assert(s.subrange(4, 8) =~= word_bytes(marker_of(d)));
    lemma_word_at(s, 4, marker_of(d));
    assert(header_len(marker_of(d)) == h);
    assert(s.subrange(8, 8 + h) =~= route_header(d, uin, seq));
    if d == PacketDetail::Uin {
        lemma_long_at(s, 8, uin);
    } else {
        lemma_word_at(s, 8, seq);
    }
    assert(s.subrange(8 + h, 8 + h + 4) =~= word_bytes(cl as u32));
    lemma_word_at(s, 8 + h, cl as u32);
    assert(s.subrange(cmd_end, cmd_end + 4) =~= word_bytes(seq));
    lemma_word_at(s, cmd_end, seq);
    assert(s.subrange(8 + h + 4, cmd_end) =~= cmd);
    assert(s.subrange(cmd_end + 4, total - 1) =~= body);
    assert(s[total - 1] == TERMINATOR);
}

/// A frame built from a packet reads back as the packet's route, sequence
/// number and command name, with a body that decrypts to the packet's body
/// when it was encrypted and equals it when it was not.
pub proof fn lemma_frame_round_trip(p: &Packet, key: Seq<u32>)
    requires
        encode_spec(p, key).len() <= u32::MAX,
    ensures
        parse_frame(encode_spec(p, key)) == Ok::<(FrameView, nat), FramingError>(
            (
                (
                    route_of(p.packet_detail, p.uin),
                    p.seq,
                    p.command.spec_bytes(),
                    wire_body(p.encrypt, key, p.body@),
                ),
                encode_spec(p, key).len(),
            ),
        ),
        p.encrypt == Encrypt::UseD2Key ==> !decrypt_fails(key, wire_body(p.encrypt, key, p.body@))
            && decrypt_spec(key, wire_body(p.encrypt, key, p.body@)) == p.body@,
        p.encrypt == Encrypt::NoEncrypt ==> wire_body(p.encrypt, key, p.body@) == p.body@,
{
    lemma_parse_frame_of(
        p.packet_detail,
        p.uin,
        p.seq,
        p.command.spec_bytes(),
        wire_body(p.encrypt, key, p.body@),
    );
    lemma_cipher_round_trip(key, p.body@);
}

} // verus!
