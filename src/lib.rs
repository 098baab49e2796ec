//! Session core of a client for a binary, length-prefixed messaging protocol:
//! the block cipher that protects packet bodies, the frame format, and the
//! request/response bookkeeping of a session.
pub mod buffer;
pub mod wire;
pub mod tea;
pub mod packet;
pub mod frame;
pub mod pending;
pub mod error;
pub mod session;
pub mod builder;
pub mod sync;
pub mod device;
pub mod protocol;
pub mod message;
pub mod stream;
pub mod tlv;
pub mod transfer;

