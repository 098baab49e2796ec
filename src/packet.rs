//! Outbound packets and the byte writer that frames are built with.
use vstd::prelude::*;
use crate::wire::{word_bytes, half_bytes, long_bytes, append_bytes};

verus! {

/// Which routing header a frame carries.
#[derive(Debug, Clone, Copy, PartialEq, Eq, Structural)]
pub enum PacketDetail {
    /// An ordinary request, routed by the account identity.
    Uin,
    /// A login request, routed by its sequence number.
    Login,
}

/// How the body of a packet travels.
#[derive(Debug, Clone, Copy, PartialEq, Eq, Structural)]
pub enum Encrypt {
    /// Encrypted with the session key.
    UseD2Key,
    /// Sent as it is.
    NoEncrypt,
}

/// A packet waiting to be framed and written.
#[derive(Debug)]
pub struct Packet {
    pub seq: u32,
    pub uin: u64,
    pub packet_detail: PacketDetail,
    pub encrypt: Encrypt,
    pub command: &'static str,
    pub body: Vec<u8>,
    pub message: String,
}

/// An append-only byte buffer with big-endian integer writers.
pub struct BinWriter {
    buf: Vec<u8>,
}

impl View for BinWriter {
    type V = Seq<u8>;

    closed spec fn view(&self) -> Seq<u8> {
        self.buf@
    }
}

impl BinWriter {
    /// An empty writer.
    pub fn new() -> (r: Self)
        ensures
            r@ == Seq::<u8>::empty(),
    {
        BinWriter { buf: Vec::new() }
    }

    /// An empty writer with room for `capacity` bytes.
    pub fn with_capacity(capacity: usize) -> (r: Self)
        ensures
            r@ == Seq::<u8>::empty(),
    {
        BinWriter { buf: Vec::with_capacity(capacity) }
    }

    /// Appends the bytes of `slice`.
    pub fn extend_from_slice(&mut self, slice: &[u8])
        ensures
            final(self)@ == old(self)@ + slice@,
    {
        append_bytes(&mut self.buf, slice);
    }

    /// Appends the bytes of `slice`.
    pub fn write_bytes(&mut self, slice: &[u8])
        ensures
            final(self)@ == old(self)@ + slice@,
    {
        self.extend_from_slice(slice);
    }

    /// Appends the eight big-endian bytes of `val`.
    pub fn write_u64_be(&mut self, val: u64)
        ensures
            final(self)@ == old(self)@ + long_bytes(val),
    {
        self.write_u32_be((val >> 32u64) as u32);
        self.write_u32_be(val as u32);
    }

    /// Appends the four big-endian bytes of `val`.
    pub fn write_u32_be(&mut self, val: u32)
        ensures
            final(self)@ == old(self)@ + word_bytes(val),
    {
        self.buf.push((val >> 24u32) as u8);
        self.buf.push((val >> 16u32) as u8);
        self.buf.push((val >> 8u32) as u8);
        self.buf.push(val as u8);
        assert(self.buf@ =~= old(self)@ + word_bytes(val));
    }

    /// Appends the two big-endian bytes of `val`.
    pub fn write_u16_be(&mut self, val: u16)
        ensures
            final(self)@ == old(self)@ + half_bytes(val),
    {
        self.buf.push((val >> 8u16) as u8);
        self.buf.push(val as u8);
        assert(self.buf@ =~= old(self)@ + half_bytes(val));
    }

    /// Appends one byte.
    pub fn write_u8(&mut self, val: u8)
        ensures
            final(self)@ == old(self)@.push(val),
    {
        self.buf.push(val);
    }

    /// The number of bytes written so far.
    pub fn len(&self) -> (r: usize)
        ensures
            r == self@.len(),
    {
        self.buf.len()
    }

    /// The bytes written, in order.
    pub fn into_vec(self) -> (r: Vec<u8>)
        ensures
            r@ == self@,
    {
        self.buf
    }
}

impl From<Vec<u8>> for BinWriter {
    fn from(buf: Vec<u8>) -> (r: Self)
        ensures
            r@ == buf@,
    {
        BinWriter { buf }
    }
}

impl vstd::std_specs::convert::FromSpecImpl<Vec<u8>> for BinWriter {
    open spec fn obeys_from_spec() -> bool {
        true
    }

    closed spec fn from_spec(buf: Vec<u8>) -> Self {
        BinWriter { buf }
    }
}

} // verus!
