//! Type-length-value fields: a 2-byte type, a 2-byte payload length, the
//! payload.
use vstd::prelude::*;
use vstd::string::StringSliceAdditionalSpecFns;
use crate::buffer::{
    bytes_view, bytes_mut_view, bytes_mut_with_capacity, put_u16, put_u32, put_slice, freeze,
    bytes_mut_set,
};
use crate::protocol::ProtocolInfo;
use crate::wire::{half_bytes, word_bytes};

verus! {

/// A field of type `cmd` with payload `payload`.
pub open spec fn tlv_of(cmd: u16, payload: Seq<u8>) -> Seq<u8> {
    half_bytes(cmd) + half_bytes(payload.len() as u16) + payload
}

/// `b` preceded by its length in two big-endian bytes.
pub open spec fn length_prefixed(b: Seq<u8>) -> Seq<u8> {
    half_bytes(b.len() as u16) + b
}

/// Builds one field: the header first, then the payload piece by piece.
pub struct TlvWriter {
    buf: bytes::BytesMut,
}

impl TlvWriter {
    /// The type of the field being built.
    pub closed spec fn cmd_view(&self) -> u16 {
        (((bytes_mut_view(self.buf)[0] as u16) << 8u16) | (bytes_mut_view(self.buf)[1] as u16))
    }

    /// The payload written so far.
    pub closed spec fn payload_view(&self) -> Seq<u8> {
        bytes_mut_view(self.buf).subrange(4, bytes_mut_view(self.buf).len() as int)
    }

    /// Whether the buffer holds the 4-byte header.
    pub closed spec fn wf(&self) -> bool {
        bytes_mut_view(self.buf).len() >= 4
    }

    /// A writer for a field of type `cmd`.
    pub fn new(cmd: u16) -> (r: Self)
        ensures
            r.wf(),
            r.cmd_view() == cmd,
            r.payload_view() == Seq::<u8>::empty(),
    {
        Self::with_capacity(cmd, 0)
    }

    /// A writer for a field of type `cmd`, with room for `cap` payload bytes.
    pub fn with_capacity(cmd: u16, cap: usize) -> (r: Self)
        ensures
            r.wf(),
            r.cmd_view() == cmd,
            r.payload_view() == Seq::<u8>::empty(),
    {
        let c = if cap <= usize::MAX - 4 { cap + 4 } else { cap };
        let mut buf = bytes_mut_with_capacity(c);
        put_u16(&mut buf, cmd);
        put_u16(&mut buf, 0);
        let r = TlvWriter { buf };
        assert(((((cmd >> 8u16) as u8 as u16) << 8u16) | (cmd as u8 as u16)) == cmd) by (bit_vector);
        r
    }

    /// Appends the two big-endian bytes of `n`.
    pub fn put_u16(&mut self, n: u16)
        requires
            old(self).wf(),
        ensures
            final(self).wf(),
            final(self).cmd_view() == old(self).cmd_view(),
            final(self).payload_view() == old(self).payload_view() + half_bytes(n),
    {
        put_u16(&mut self.buf, n);
        assert(self.payload_view() =~= old(self).payload_view() + half_bytes(n));
    }

    /// Appends the four big-endian bytes of `n`.
    pub fn put_u32(&mut self, n: u32)
        requires
            old(self).wf(),
        ensures
            final(self).wf(),
            final(self).cmd_view() == old(self).cmd_view(),
            final(self).payload_view() == old(self).payload_view() + word_bytes(n),
    {
        put_u32(&mut self.buf, n);
        assert(self.payload_view() =~= old(self).payload_view() + word_bytes(n));
    }

    /// Appends `src`.
    pub fn put_slice(&mut self, src: &[u8])
        requires
            old(self).wf(),
        ensures
            final(self).wf(),
            final(self).cmd_view() == old(self).cmd_view(),
            final(self).payload_view() == old(self).payload_view() + src@,
    {
        put_slice(&mut self.buf, src);
        assert(self.payload_view() =~= old(self).payload_view() + src@);
    }

    /// Appends `bytes` preceded by its length in two big-endian bytes.
    pub fn write_bytes(&mut self, bytes: &[u8])
        requires
            old(self).wf(),
            bytes@.len() <= u16::MAX,
        ensures
            final(self).wf(),
            final(self).cmd_view() == old(self).cmd_view(),
            final(self).payload_view() == old(self).payload_view() + length_prefixed(bytes@),
    {
        self.put_u16(bytes.len() as u16);
        self.put_slice(bytes);
        assert(self.payload_view() =~= old(self).payload_view() + length_prefixed(bytes@));
    }

    /// Appends `b` preceded by its length in two big-endian bytes.
    pub fn write(&mut self, b: &[u8])
        requires
            old(self).wf(),
            b@.len() <= u16::MAX,
        ensures
            final(self).wf(),
            final(self).cmd_view() == old(self).cmd_view(),
            final(self).payload_view() == old(self).payload_view() + length_prefixed(b@),
    {
        self.write_bytes(b)
    }

    /// The finished field, its payload length filled in.
    pub fn into_bytes_mut(self) -> (r: bytes::BytesMut)
        requires
            self.wf(),
            self.payload_view().len() <= u16::MAX,
        ensures
            bytes_mut_view(r) == tlv_of(self.cmd_view(), self.payload_view()),
    {
        let mut buf = self.buf;
        let ghost before = bytes_mut_view(buf);
        let len = (crate::buffer::bytes_mut_as_slice(&buf).len() - 4) as u16;
        bytes_mut_set(&mut buf, 2, (len >> 8u16) as u8);
        bytes_mut_set(&mut buf, 3, len as u8);
        let ghost b0: u8 = before[0];
        let ghost b1: u8 = before[1];
        assert((((((b0 as u16) << 8u16) | (b1 as u16)) >> 8u16) as u8) == b0 && ((((b0 as u16)
            << 8u16) | (b1 as u16)) as u8) == b1) by (bit_vector);
        assert(bytes_mut_view(buf) =~= tlv_of(self.cmd_view(), self.payload_view()));
        buf
    }

    /// The finished field, its payload length filled in.
    pub fn into_bytes(self) -> (r: bytes::Bytes)
        requires
            self.wf(),
            self.payload_view().len() <= u16::MAX,
        ensures
            bytes_view(r) == tlv_of(self.cmd_view(), self.payload_view()),
    {
        freeze(self.into_bytes_mut())
    }

    /// The finished field, its payload length filled in.
    pub fn complete(self) -> (r: bytes::Bytes)
        requires
            self.wf(),
            self.payload_view().len() <= u16::MAX,
        ensures
            bytes_view(r) == tlv_of(self.cmd_view(), self.payload_view()),
    {
        self.into_bytes()
    }
}

/// The payload of field `0x16`: the build and the device identifier.
pub open spec fn tlv16_payload(p: &ProtocolInfo, guid: Seq<u8>) -> Seq<u8> {
    word_bytes(p.sso_version) + word_bytes(p.appid) + word_bytes(p.subid) + guid + length_prefixed(
        p.id.spec_bytes(),
    ) + length_prefixed(p.version.spec_bytes()) + length_prefixed(p.sign@)
}

/// Field `0x16`, which names the client build and the device.
pub fn tlv16(protocol: &ProtocolInfo, guid: &[u8; 16]) -> (r: bytes::Bytes)
    requires
        tlv16_payload(protocol, guid@).len() <= u16::MAX,
    ensures
        bytes_view(r) == tlv_of(0x16, tlv16_payload(protocol, guid@)),
{
    let mut w = TlvWriter::new(0x16);
    w.put_u32(protocol.sso_version);
    w.put_u32(protocol.appid);
    w.put_u32(protocol.subid);
    w.put_slice(guid.as_slice());
    w.write(protocol.id.as_bytes());
    w.write(protocol.version.as_bytes());
    w.write(protocol.sign.as_slice());
    assert(w.payload_view() =~= tlv16_payload(protocol, guid@));
    w.into_bytes()
}

/// The payload of field `0x1b`.
pub open spec fn tlv1b_payload() -> Seq<u8> {
    word_bytes(0) + word_bytes(0) + word_bytes(3) + word_bytes(4) + word_bytes(72) + word_bytes(2)
        + word_bytes(2) + half_bytes(0)
}

/// Field `0x1b`.
pub fn tlv1b() -> (r: bytes::Bytes)
    ensures
        bytes_view(r) == tlv_of(0x1b, tlv1b_payload()),
{
    let mut w = TlvWriter::new(0x1b);
    w.put_u32(0);
    w.put_u32(0);
    w.put_u32(3);
    w.put_u32(4);
    w.put_u32(72);
    w.put_u32(2);
    w.put_u32(2);
    w.put_u16(0);
    assert(w.payload_view() =~= tlv1b_payload());
    w.into_bytes()
}

} // verus!
