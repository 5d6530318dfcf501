//! The message grammar: decoding rules for every RakNet message kind,
//! built from the primitive decoders of [`crate::types`].
//!
//! Dispatch reads one [`PacketId`] byte and branches by kind; each message
//! is a flat sequence of primitive reads in a fixed field order. Any
//! primitive decode failure aborts the message and is propagated unchanged.

use crate::types::{
    addr_err, addr_len, addr_matches, addr_ok, addrs_err, addrs_match, addrs_ok, addrs_width,
    be16, be32, be_i16, be_i64, le24, Addr, DataError, Magic, SizedBuffer,
};
use vstd::prelude::*;
use vstd::utf8::{decode_utf8, valid_utf8};

verus! {

/// Failures of the message decoders.
#[derive(Debug, Clone, Copy, PartialEq, Eq, Structural)]
pub enum PacketError {
    /// A primitive field failed to decode; the failure is carried unchanged.
    DataError(DataError),
    /// The leading id byte matches no known message kind.
    UnknownPacket,
    /// The remaining-buffer-derived MTU size does not fit its 16-bit width.
    InvalidMtuSize,
}

/// The outer message kind denoted by a leading id byte. Ids 0x80 through
/// 0x8d all denote a frame set (the low four bits of a datagram header are
/// a flags nibble reused across that range, carried along here); every
/// other kind is an exact match.
#[derive(Debug, Clone, Copy, PartialEq, Eq, Structural)]
pub enum PacketId {
    UConnPing,
    UConnConnPing,
    UConnPong,
    OConnReq1,
    OConnReply1,
    OConnReq2,
    OConnReply2,
    Incompatible,
    FrameSet(u8),
    Nack,
    Ack,
}

/// The message kind denoted by the id byte `b`, or nothing when `b` is
/// unknown.
pub open spec fn spec_packet_id(b: u8) -> Option<PacketId> {
    if b == 0x01 {
        Some(PacketId::UConnPing)
    } else if b == 0x02 {
        Some(PacketId::UConnConnPing)
    } else if b == 0x1c {
        Some(PacketId::UConnPong)
    } else if b == 0x05 {
        Some(PacketId::OConnReq1)
    } else if b == 0x06 {
        Some(PacketId::OConnReply1)
    } else if b == 0x07 {
        Some(PacketId::OConnReq2)
    } else if b == 0x08 {
        Some(PacketId::OConnReply2)
    } else if b == 0x19 {
        Some(PacketId::Incompatible)
    } else if 0x80 <= b && b <= 0x8d {
        Some(PacketId::FrameSet(b))
    } else if b == 0xa0 {
        Some(PacketId::Nack)
    } else if b == 0xc0 {
        Some(PacketId::Ack)
    } else {
        None
    }
}

impl PacketId {
    /// Reads the leading id byte and maps it to the message kind; a byte
    /// matching no kind fails with `UnknownPacket`, the byte consumed.
    pub fn take<const N: usize>(buf: &mut SizedBuffer<N>) -> (r: Result<PacketId, PacketError>)
        requires
            old(buf).wf(),
        ensures
            final(buf).wf(),
            old(buf).spec_len() < 1 ==> r == Err::<PacketId, PacketError>(
                PacketError::DataError(DataError::InsufficientByte),
            ) && SizedBuffer::unchanged(*old(buf), *final(buf)),
            old(buf).spec_len() >= 1 ==> ({
                let id = spec_packet_id(old(buf).rem()[0]);
                &&& SizedBuffer::advanced(*old(buf), *final(buf), 1)
                &&& id matches Some(v) ==> r == Ok::<PacketId, PacketError>(v)
                &&& id is None ==> r == Err::<PacketId, PacketError>(PacketError::UnknownPacket)
            }),
    {
        let id = match buf.take_u8() {
            Ok(v) => v,
            Err(e) => {
                return Err(PacketError::DataError(e));
            },
        };
        if id == 0x01 {
            Ok(PacketId::UConnPing)
        } else if id == 0x02 {
            Ok(PacketId::UConnConnPing)
        } else if id == 0x1c {
            Ok(PacketId::UConnPong)
        } else if id == 0x05 {
            Ok(PacketId::OConnReq1)
        } else if id == 0x06 {
            Ok(PacketId::OConnReply1)
        } else if id == 0x07 {
            Ok(PacketId::OConnReq2)
        } else if id == 0x08 {
            Ok(PacketId::OConnReply2)
        } else if id == 0x19 {
            Ok(PacketId::Incompatible)
        } else if 0x80 <= id && id <= 0x8d {
            Ok(PacketId::FrameSet(id))
        } else if id == 0xa0 {
            Ok(PacketId::Nack)
        } else if id == 0xc0 {
            Ok(PacketId::Ack)
        } else {
            Err(PacketError::UnknownPacket)
        }
    }
}

/// The message kind of a payload carried inside a frame, denoted by the
/// payload's own leading id byte.
#[derive(Debug, Clone, Copy, PartialEq, Eq, Structural)]
pub enum FramePacketId {
    ConnReq,
    ConnReqAccept,
    ConnPing,
    ConnPong,
    NewConn,
    DisConn,
    Game,
}

/// The framed message kind denoted by the id byte `b`, or nothing when `b`
/// is unknown.
pub open spec fn spec_frame_packet_id(b: u8) -> Option<FramePacketId> {
    if b == 0x09 {
        Some(FramePacketId::ConnReq)
    } else if b == 0x10 {
        Some(FramePacketId::ConnReqAccept)
    } else if b == 0x00 {
        Some(FramePacketId::ConnPing)
    } else if b == 0x03 {
        Some(FramePacketId::ConnPong)
    } else if b == 0x13 {
        Some(FramePacketId::NewConn)
    } else if b == 0x15 {
        Some(FramePacketId::DisConn)
    } else if b == 0xfe {
        Some(FramePacketId::Game)
    } else {
        None
    }
}

impl FramePacketId {
    /// Reads the leading id byte of a frame's payload and maps it to the
    /// framed message kind; a byte matching no kind fails with
    /// `UnknownPacket`, the byte consumed.
    pub fn take<const N: usize>(buf: &mut SizedBuffer<N>) -> (r: Result<
        FramePacketId,
        PacketError,
    >)
        requires
            old(buf).wf(),
        ensures
            final(buf).wf(),
            old(buf).spec_len() < 1 ==> r == Err::<FramePacketId, PacketError>(
                PacketError::DataError(DataError::InsufficientByte),
            ) && SizedBuffer::unchanged(*old(buf), *final(buf)),
            old(buf).spec_len() >= 1 ==> ({
                let id = spec_frame_packet_id(old(buf).rem()[0]);
                &&& SizedBuffer::advanced(*old(buf), *final(buf), 1)
                &&& id matches Some(v) ==> r == Ok::<FramePacketId, PacketError>(v)
                &&& id is None ==> r == Err::<FramePacketId, PacketError>(
                    PacketError::UnknownPacket,
                )
            }),
    {
        let id = match buf.take_u8() {
            Ok(v) => v,
            Err(e) => {
                return Err(PacketError::DataError(e));
            },
        };
        if id == 0x09 {
            Ok(FramePacketId::ConnReq)
        } else if id == 0x10 {
            Ok(FramePacketId::ConnReqAccept)
        } else if id == 0x00 {
            Ok(FramePacketId::ConnPing)
        } else if id == 0x03 {
            Ok(FramePacketId::ConnPong)
        } else if id == 0x13 {
            Ok(FramePacketId::NewConn)
        } else if id == 0x15 {
            Ok(FramePacketId::DisConn)
        } else if id == 0xfe {
            Ok(FramePacketId::Game)
        } else {
            Err(PacketError::UnknownPacket)
        }
    }
}

/// Whether a peer asked for the optional secure-handshake mode. The codec
/// records the request and does nothing else with it; no encryption or
/// decryption is performed.
#[derive(Debug, Clone, Copy, PartialEq, Eq, Structural)]
pub enum SecurityState {
    Raw,
    Encrypt,
}

/// The security state denoted by a boolean field byte: any non-zero value
/// asks for encryption.
pub open spec fn spec_security(b: u8) -> SecurityState {
    if b != 0 {
        SecurityState::Encrypt
    } else {
        SecurityState::Raw
    }
}

impl SecurityState {
    /// Reads one boolean byte and maps it to the security state.
    pub fn take<const N: usize>(buf: &mut SizedBuffer<N>) -> (r: Result<SecurityState, PacketError>)
        requires
            old(buf).wf(),
        ensures
            final(buf).wf(),
            old(buf).spec_len() < 1 ==> r == Err::<SecurityState, PacketError>(
                PacketError::DataError(DataError::InsufficientByte),
            ) && SizedBuffer::unchanged(*old(buf), *final(buf)),
            old(buf).spec_len() >= 1 ==> r == Ok::<SecurityState, PacketError>(
                spec_security(old(buf).rem()[0]),
            ) && SizedBuffer::advanced(*old(buf), *final(buf), 1),
    {
        let use_security = match buf.take_bool() {
            Ok(v) => v,
            Err(e) => {
                return Err(PacketError::DataError(e));
            },
        };
        if use_security {
            Ok(SecurityState::Encrypt)
        } else {
            Ok(SecurityState::Raw)
        }
    }
}

/// An unconnected ping: timestamp, magic token, client guid.
#[derive(Debug, Clone, PartialEq, Eq)]
pub struct UConnPing {
    pub time: i64,
    pub magic: Magic,
    pub client_guid: i64,
}

impl UConnPing {
    /// The front of `s` holds a decodable unconnected ping: 32 bytes, the
    /// first eight a non-negative timestamp.
    pub open spec fn spec_ok(s: Seq<u8>) -> bool {
        s.len() >= 32 && be_i64(s) >= 0
    }

    /// `self` holds exactly the fields decoded from the front of `s`.
    pub open spec fn decodes_from(self, s: Seq<u8>) -> bool {
        &&& self.time == be_i64(s)
        &&& self.magic.0@ == s.subrange(8, 24)
        &&& self.client_guid == be_i64(s.skip(24))
    }

    /// The failure an undecodable front of `s` reports.
    pub open spec fn spec_err(s: Seq<u8>) -> PacketError {
        if s.len() >= 8 && be_i64(s) < 0 {
            PacketError::DataError(DataError::InvalidTime)
        } else {
            PacketError::DataError(DataError::InsufficientByte)
        }
    }

    /// Decodes an unconnected ping: a timestamp, the magic token, and the
    /// client guid, 32 bytes in all.
    pub fn take<const N: usize>(buf: &mut SizedBuffer<N>) -> (r: Result<UConnPing, PacketError>)
        requires
            old(buf).wf(),
        ensures
            final(buf).wf(),
            final(buf).spec_data() == old(buf).spec_data(),
            ({
                let s = old(buf).rem();
                &&& Self::spec_ok(s) <==> r is Ok
                &&& r matches Ok(p) ==> p.decodes_from(s) && SizedBuffer::advanced(
                    *old(buf),
                    *final(buf),
                    32,
                )
                &&& !Self::spec_ok(s) ==> r == Err::<UConnPing, PacketError>(Self::spec_err(s))
            }),
    {
        let time = match buf.take_time() {
            Ok(v) => v,
            Err(e) => {
                return Err(PacketError::DataError(e));
            },
        };
        let magic = match buf.take_magic() {
            Ok(v) => v,
            Err(e) => {
                return Err(PacketError::DataError(e));
            },
        };
        let client_guid = match buf.take_i64() {
            Ok(v) => v,
            Err(e) => {
                return Err(PacketError::DataError(e));
            },
        };
        proof {
            let s = old(buf).rem();
            assert(s.skip(8).take(16) =~= s.subrange(8, 24));
            assert(s.skip(8).skip(16) =~= s.skip(24));
            assert(buf.rem() =~= s.skip(32));
        }
        Ok(UConnPing { time, magic, client_guid })
    }
}

/// A second form of unconnected ping, sent when a connection is already
/// open: the field layout is identical to `UConnPing`.
#[derive(Debug, Clone, PartialEq, Eq)]
pub struct UConnConnPing {
    pub time: i64,
    pub magic: Magic,
    pub client_guid: i64,
}

impl UConnConnPing {
    /// The front of `s` holds a decodable message: 32 bytes, the first
    /// eight a non-negative timestamp.
    pub open spec fn spec_ok(s: Seq<u8>) -> bool {
        s.len() >= 32 && be_i64(s) >= 0
    }

    /// `self` holds exactly the fields decoded from the front of `s`.
    pub open spec fn decodes_from(self, s: Seq<u8>) -> bool {
        &&& self.time == be_i64(s)
        &&& self.magic.0@ == s.subrange(8, 24)
        &&& self.client_guid == be_i64(s.skip(24))
    }

    /// The failure an undecodable front of `s` reports.
    pub open spec fn spec_err(s: Seq<u8>) -> PacketError {
        if s.len() >= 8 && be_i64(s) < 0 {
            PacketError::DataError(DataError::InvalidTime)
        } else {
            PacketError::DataError(DataError::InsufficientByte)
        }
    }

    /// Decodes the message: a timestamp, the magic token, and the client
    /// guid, 32 bytes in all.
    pub fn take<const N: usize>(buf: &mut SizedBuffer<N>) -> (r: Result<UConnConnPing, PacketError>)
        requires
            old(buf).wf(),
        ensures
            final(buf).wf(),
            final(buf).spec_data() == old(buf).spec_data(),
            ({
                let s = old(buf).rem();
                &&& Self::spec_ok(s) <==> r is Ok
                &&& r matches Ok(p) ==> p.decodes_from(s) && SizedBuffer::advanced(
                    *old(buf),
                    *final(buf),
                    32,
                )
                &&& !Self::spec_ok(s) ==> r == Err::<UConnConnPing, PacketError>(Self::spec_err(s))
            }),
    {
        let time = match buf.take_time() {
            Ok(v) => v,
            Err(e) => {
                return Err(PacketError::DataError(e));
            },
        };
        let magic = match buf.take_magic() {
            Ok(v) => v,
            Err(e) => {
                return Err(PacketError::DataError(e));
            },
        };
        let client_guid = match buf.take_i64() {
            Ok(v) => v,
            Err(e) => {
                return Err(PacketError::DataError(e));
            },
        };
        proof {
            let s = old(buf).rem();
            assert(s.skip(8).take(16) =~= s.subrange(8, 24));
            assert(s.skip(8).skip(16) =~= s.skip(24));
            assert(buf.rem() =~= s.skip(32));
        }
        Ok(UConnConnPing { time, magic, client_guid })
    }
}

/// A connected ping: a single timestamp.
#[derive(Debug, Clone, PartialEq, Eq)]
pub struct ConnPing {
    pub time: i64,
}

impl ConnPing {
    /// The front of `s` holds a decodable connected ping: eight bytes of
    /// non-negative timestamp.
    pub open spec fn spec_ok(s: Seq<u8>) -> bool {
        s.len() >= 8 && be_i64(s) >= 0
    }

    /// `self` holds exactly the fields decoded from the front of `s`.
    pub open spec fn decodes_from(self, s: Seq<u8>) -> bool {
        self.time == be_i64(s)
    }

    /// The failure an undecodable front of `s` reports.
    pub open spec fn spec_err(s: Seq<u8>) -> PacketError {
        if s.len() >= 8 && be_i64(s) < 0 {
            PacketError::DataError(DataError::InvalidTime)
        } else {
            PacketError::DataError(DataError::InsufficientByte)
        }
    }

    /// Decodes a connected ping: one timestamp.
    pub fn take<const N: usize>(buf: &mut SizedBuffer<N>) -> (r: Result<ConnPing, PacketError>)
        requires
            old(buf).wf(),
        ensures
            final(buf).wf(),
            final(buf).spec_data() == old(buf).spec_data(),
            ({
                let s = old(buf).rem();
                &&& Self::spec_ok(s) <==> r is Ok
                &&& r matches Ok(p) ==> p.decodes_from(s) && SizedBuffer::advanced(
                    *old(buf),
                    *final(buf),
                    8,
                )
                &&& !Self::spec_ok(s) ==> r == Err::<ConnPing, PacketError>(Self::spec_err(s))
            }),
    {
        let time = match buf.take_time() {
            Ok(v) => v,
            Err(e) => {
                return Err(PacketError::DataError(e));
            },
        };
        Ok(ConnPing { time })
    }
}

/// A connected pong: the echoed ping timestamp and the pong timestamp.
#[derive(Debug, Clone, PartialEq, Eq)]
pub struct ConnPong {
    pub ping_time: i64,
    pub pong_time: i64,
}

impl ConnPong {
    /// The front of `s` holds a decodable connected pong: sixteen bytes
    /// forming two non-negative timestamps.
    pub open spec fn spec_ok(s: Seq<u8>) -> bool {
        s.len() >= 16 && be_i64(s) >= 0 && be_i64(s.skip(8)) >= 0
    }

    /// `self` holds exactly the fields decoded from the front of `s`.
    pub open spec fn decodes_from(self, s: Seq<u8>) -> bool {
        &&& self.ping_time == be_i64(s)
        &&& self.pong_time == be_i64(s.skip(8))
    }

    /// The failure an undecodable front of `s` reports: the first
    /// timestamp is read and validated before the second.
    pub open spec fn spec_err(s: Seq<u8>) -> PacketError {
        if s.len() >= 8 && be_i64(s) < 0 {
            PacketError::DataError(DataError::InvalidTime)
        } else if s.len() >= 16 && be_i64(s.skip(8)) < 0 {
            PacketError::DataError(DataError::InvalidTime)
        } else {
            PacketError::DataError(DataError::InsufficientByte)
        }
    }

    /// Decodes a connected pong: two timestamps.
    pub fn take<const N: usize>(buf: &mut SizedBuffer<N>) -> (r: Result<ConnPong, PacketError>)
        requires
            old(buf).wf(),
        ensures
            final(buf).wf(),
            final(buf).spec_data() == old(buf).spec_data(),
            ({
                let s = old(buf).rem();
                &&& Self::spec_ok(s) <==> r is Ok
                &&& r matches Ok(p) ==> p.decodes_from(s) && SizedBuffer::advanced(
                    *old(buf),
                    *final(buf),
                    16,
                )
                &&& !Self::spec_ok(s) ==> r == Err::<ConnPong, PacketError>(Self::spec_err(s))
            }),
    {
        let ping_time = match buf.take_time() {
            Ok(v) => v,
            Err(e) => {
                return Err(PacketError::DataError(e));
            },
        };
        let pong_time = match buf.take_time() {
            Ok(v) => v,
            Err(e) => {
                return Err(PacketError::DataError(e));
            },
        };
        proof {
            assert(buf.rem() =~= old(buf).rem().skip(16));
        }
        Ok(ConnPong { ping_time, pong_time })
    }
}

/// A framed connection request: the client guid and a timestamp.
#[derive(Debug, Clone, PartialEq, Eq)]
pub struct ConnReq {
    pub guid: i64,
    pub time: i64,
}

impl ConnReq {
    /// The front of `s` holds a decodable connection request: sixteen
    /// bytes, the second eight a non-negative timestamp.
    pub open spec fn spec_ok(s: Seq<u8>) -> bool {
        s.len() >= 16 && be_i64(s.skip(8)) >= 0
    }

    /// `self` holds exactly the fields decoded from the front of `s`.
    pub open spec fn decodes_from(self, s: Seq<u8>) -> bool {
        &&& self.guid == be_i64(s)
        &&& self.time == be_i64(s.skip(8))
    }

    /// The failure an undecodable front of `s` reports.
    pub open spec fn spec_err(s: Seq<u8>) -> PacketError {
        if s.len() >= 16 && be_i64(s.skip(8)) < 0 {
            PacketError::DataError(DataError::InvalidTime)
        } else {
            PacketError::DataError(DataError::InsufficientByte)
        }
    }

    /// Decodes a connection request: the client guid, then a timestamp.
    pub fn take<const N: usize>(buf: &mut SizedBuffer<N>) -> (r: Result<ConnReq, PacketError>)
        requires
            old(buf).wf(),
        ensures
            final(buf).wf(),
            final(buf).spec_data() == old(buf).spec_data(),
            ({
                let s = old(buf).rem();
                &&& Self::spec_ok(s) <==> r is Ok
                &&& r matches Ok(p) ==> p.decodes_from(s) && SizedBuffer::advanced(
                    *old(buf),
                    *final(buf),
                    16,
                )
                &&& !Self::spec_ok(s) ==> r == Err::<ConnReq, PacketError>(Self::spec_err(s))
            }),
    {
        let guid = match buf.take_i64() {
            Ok(v) => v,
            Err(e) => {
                return Err(PacketError::DataError(e));
            },
        };
        let time = match buf.take_time() {
            Ok(v) => v,
            Err(e) => {
                return Err(PacketError::DataError(e));
            },
        };
        proof {
            assert(buf.rem() =~= old(buf).rem().skip(16));
        }
        Ok(ConnReq { guid, time })
    }
}

/// An incompatible-protocol notice: the offered protocol version, the
/// magic token, and the server guid.
#[derive(Debug, Clone, PartialEq, Eq)]
pub struct Incompatible {
    pub protocol: u8,
    pub magic: Magic,
    pub server_guid: i64,
}

impl Incompatible {
    /// The front of `s` holds a decodable incompatible-protocol notice:
    /// 25 bytes.
    pub open spec fn spec_ok(s: Seq<u8>) -> bool {
        s.len() >= 25
    }

    /// `self` holds exactly the fields decoded from the front of `s`.
    pub open spec fn decodes_from(self, s: Seq<u8>) -> bool {
        &&& self.protocol == s[0]
        &&& self.magic.0@ == s.subrange(1, 17)
        &&& self.server_guid == be_i64(s.skip(17))
    }

    /// The failure an undecodable front of `s` reports.
    pub open spec fn spec_err(s: Seq<u8>) -> PacketError {
        PacketError::DataError(DataError::InsufficientByte)
    }

    /// Decodes an incompatible-protocol notice: the protocol version, the
    /// magic token, and the server guid, 25 bytes in all.
    pub fn take<const N: usize>(buf: &mut SizedBuffer<N>) -> (r: Result<Incompatible, PacketError>)
        requires
            old(buf).wf(),
        ensures
            final(buf).wf(),
            final(buf).spec_data() == old(buf).spec_data(),
            ({
                let s = old(buf).rem();
                &&& Self::spec_ok(s) <==> r is Ok
                &&& r matches Ok(p) ==> p.decodes_from(s) && SizedBuffer::advanced(
                    *old(buf),
                    *final(buf),
                    25,
                )
                &&& !Self::spec_ok(s) ==> r == Err::<Incompatible, PacketError>(Self::spec_err(s))
            }),
    {
        let protocol = match buf.take_u8() {
            Ok(v) => v,
            Err(e) => {
                return Err(PacketError::DataError(e));
            },
        };
        let magic = match buf.take_magic() {
            Ok(v) => v,
            Err(e) => {
                return Err(PacketError::DataError(e));
            },
        };
        let server_guid = match buf.take_i64() {
            Ok(v) => v,
            Err(e) => {
                return Err(PacketError::DataError(e));
            },
        };
        proof {
            let s = old(buf).rem();
            assert(s.skip(1).take(16) =~= s.subrange(1, 17));
            assert(s.skip(1).skip(16) =~= s.skip(17));
            assert(buf.rem() =~= s.skip(25));
        }
        Ok(Incompatible { protocol, magic, server_guid })
    }
}

/// The first open-connection request: the magic token, the protocol
/// version, and an MTU size derived from the length of the padding that
/// fills the rest of the datagram (the padding itself is not consumed).
#[derive(Debug, Clone, PartialEq, Eq)]
pub struct OConnReq1 {
    pub magic: Magic,
    /// The RakNet protocol version offered by the client.
    pub version: u8,
    /// The MTU size the padding length advertises.
    pub mtu_size: u16,
}

impl OConnReq1 {
    /// The front of `s` holds a decodable request: 17 bytes of fields, and
    /// a padding remainder that fits the 16-bit MTU width.
    pub open spec fn spec_ok(s: Seq<u8>) -> bool {
        s.len() >= 17 && s.len() - 17 <= 0xffff
    }

    /// `self` holds exactly the fields decoded from `s`: the MTU size is
    /// the count of bytes that remain after the fixed fields.
    pub open spec fn decodes_from(self, s: Seq<u8>) -> bool {
        &&& self.magic.0@ == s.take(16)
        &&& self.version == s[16]
        &&& self.mtu_size == s.len() - 17
    }

    /// The failure an undecodable front of `s` reports.
    pub open spec fn spec_err(s: Seq<u8>) -> PacketError {
        if s.len() >= 17 && s.len() - 17 > 0xffff {
            PacketError::InvalidMtuSize
        } else {
            PacketError::DataError(DataError::InsufficientByte)
        }
    }

    /// Decodes the first open-connection request: the magic token and the
    /// protocol version; the MTU size is computed from the remaining
    /// buffer length, not read from the wire, and the padding stays
    /// unread. A remainder over 16 bits fails with `InvalidMtuSize`.
    pub fn take<const N: usize>(buf: &mut SizedBuffer<N>) -> (r: Result<OConnReq1, PacketError>)
        requires
            old(buf).wf(),
        ensures
            final(buf).wf(),
            final(buf).spec_data() == old(buf).spec_data(),
            ({
                let s = old(buf).rem();
                &&& Self::spec_ok(s) <==> r is Ok
                &&& r matches Ok(p) ==> p.decodes_from(s) && SizedBuffer::advanced(
                    *old(buf),
                    *final(buf),
                    17,
                )
                &&& !Self::spec_ok(s) ==> r == Err::<OConnReq1, PacketError>(Self::spec_err(s))
            }),
    {
        let magic = match buf.take_magic() {
            Ok(v) => v,
            Err(e) => {
                return Err(PacketError::DataError(e));
            },
        };
        let version = match buf.take_u8() {
            Ok(v) => v,
            Err(e) => {
                return Err(PacketError::DataError(e));
            },
        };
        let padding = buf.len();
        if padding > 0xffff {
            return Err(PacketError::InvalidMtuSize);
        }
        let mtu_size: u16 = padding as u16;
        proof {
            assert(buf.rem() =~= old(buf).rem().skip(17));
        }
        Ok(OConnReq1 { magic, version, mtu_size })
    }
}

/// The first open-connection reply: the magic token, the server guid, the
/// security state, and the agreed MTU.
#[derive(Debug, Clone, PartialEq, Eq)]
pub struct OConnReply1 {
    pub magic: Magic,
    pub server_guid: i64,
    pub security: SecurityState,
    pub mtu: u16,
}

impl OConnReply1 {
    /// The front of `s` holds a decodable reply: 27 bytes.
    pub open spec fn spec_ok(s: Seq<u8>) -> bool {
        s.len() >= 27
    }

    /// `self` holds exactly the fields decoded from the front of `s`.
    pub open spec fn decodes_from(self, s: Seq<u8>) -> bool {
        &&& self.magic.0@ == s.take(16)
        &&& self.server_guid == be_i64(s.skip(16))
        &&& self.security == spec_security(s[24])
        &&& self.mtu == be16(s.skip(25))
    }

    /// The failure an undecodable front of `s` reports.
    pub open spec fn spec_err(s: Seq<u8>) -> PacketError {
        PacketError::DataError(DataError::InsufficientByte)
    }

    /// Decodes the first open-connection reply: the magic token, the
    /// server guid, the security state, and the MTU, 27 bytes in all.
    pub fn take<const N: usize>(buf: &mut SizedBuffer<N>) -> (r: Result<OConnReply1, PacketError>)
        requires
            old(buf).wf(),
        ensures
            final(buf).wf(),
            final(buf).spec_data() == old(buf).spec_data(),
            ({
                let s = old(buf).rem();
                &&& Self::spec_ok(s) <==> r is Ok
                &&& r matches Ok(p) ==> p.decodes_from(s) && SizedBuffer::advanced(
                    *old(buf),
                    *final(buf),
                    27,
                )
                &&& !Self::spec_ok(s) ==> r == Err::<OConnReply1, PacketError>(Self::spec_err(s))
            }),
    {
        let magic = match buf.take_magic() {
            Ok(v) => v,
            Err(e) => {
                return Err(PacketError::DataError(e));
            },
        };
        let server_guid = match buf.take_i64() {
            Ok(v) => v,
            Err(e) => {
                return Err(PacketError::DataError(e));
            },
        };
        let security = match SecurityState::take(buf) {
            Ok(v) => v,
            Err(e) => {
                return Err(e);
            },
        };
        let mtu = match buf.take_u16() {
            Ok(v) => v,
            Err(e) => {
                return Err(PacketError::DataError(e));
            },
        };
        proof {
            let s = old(buf).rem();
            assert(s.skip(16).skip(8) =~= s.skip(24));
            assert(s.skip(24).skip(1) =~= s.skip(25));
            assert(buf.rem() =~= s.skip(27));
        }
        Ok(OConnReply1 { magic, server_guid, security, mtu })
    }
}

/// An unconnected pong: timestamp, server guid, magic token, and the
/// server's advertised identity string.
#[derive(Debug, Clone, PartialEq, Eq)]
pub struct UConnPong {
    pub time: i64,
    pub server_guid: i64,
    pub magic: Magic,
    pub server_id: String,
}

impl UConnPong {
    /// The length-prefixed identity string starts 32 bytes in; this is its
    /// byte count.
    pub open spec fn spec_id_len(s: Seq<u8>) -> int {
        be16(s.skip(32))
    }

    /// The bytes of the identity string field, after its length prefix.
    pub open spec fn spec_id_bytes(s: Seq<u8>) -> Seq<u8> {
        s.subrange(34, 34 + Self::spec_id_len(s))
    }

    /// The front of `s` holds a decodable unconnected pong: a non-negative
    /// timestamp, the fixed fields, and a complete identity string of
    /// valid UTF-8.
    pub open spec fn spec_ok(s: Seq<u8>) -> bool {
        &&& s.len() >= 34
        &&& be_i64(s) >= 0
        &&& s.len() - 34 >= Self::spec_id_len(s)
        &&& valid_utf8(Self::spec_id_bytes(s))
    }

    /// The count of bytes the message occupies.
    pub open spec fn spec_width(s: Seq<u8>) -> int {
        34 + Self::spec_id_len(s)
    }

    /// `self` holds exactly the fields decoded from the front of `s`.
    pub open spec fn decodes_from(self, s: Seq<u8>) -> bool {
        &&& self.time == be_i64(s)
        &&& self.server_guid == be_i64(s.skip(8))
        &&& self.magic.0@ == s.subrange(16, 32)
        &&& self.server_id@ == decode_utf8(Self::spec_id_bytes(s))
    }

    /// The failure an undecodable front of `s` reports.
    pub open spec fn spec_err(s: Seq<u8>) -> PacketError {
        if s.len() >= 8 && be_i64(s) < 0 {
            PacketError::DataError(DataError::InvalidTime)
        } else if s.len() >= 34 && s.len() - 34 >= Self::spec_id_len(s) && !valid_utf8(
            Self::spec_id_bytes(s),
        ) {
            PacketError::DataError(DataError::Utf8Error)
        } else {
            PacketError::DataError(DataError::InsufficientByte)
        }
    }

    /// Decodes an unconnected pong: a timestamp, the server guid, the
    /// magic token, and the length-prefixed identity string.
    pub fn take<const N: usize>(buf: &mut SizedBuffer<N>) -> (r: Result<UConnPong, PacketError>)
        requires
            old(buf).wf(),
        ensures
            final(buf).wf(),
            final(buf).spec_data() == old(buf).spec_data(),
            ({
                let s = old(buf).rem();
                &&& Self::spec_ok(s) <==> r is Ok
                &&& r matches Ok(p) ==> p.decodes_from(s) && SizedBuffer::advanced(
                    *old(buf),
                    *final(buf),
                    Self::spec_width(s),
                )
                &&& !Self::spec_ok(s) ==> r == Err::<UConnPong, PacketError>(Self::spec_err(s))
            }),
    {
        let time = match buf.take_time() {
            Ok(v) => v,
            Err(e) => {
                return Err(PacketError::DataError(e));
            },
        };
        let server_guid = match buf.take_i64() {
            Ok(v) => v,
            Err(e) => {
                return Err(PacketError::DataError(e));
            },
        };
        let magic = match buf.take_magic() {
            Ok(v) => v,
            Err(e) => {
                return Err(PacketError::DataError(e));
            },
        };
        proof {
            let s = old(buf).rem();
            assert(s.skip(8).take(16) =~= s.subrange(8, 24));
            assert(s.skip(8).skip(8) =~= s.skip(16));
            assert(s.skip(16).take(16) =~= s.subrange(16, 32));
            assert(buf.rem() =~= s.skip(32));
        }
        let server_id = match buf.take_str() {
            Ok(v) => v,
            Err(e) => {
                proof {
                    let s = old(buf).rem();
                    if s.len() >= 34 && s.len() - 34 >= Self::spec_id_len(s) {
                        assert(s.skip(32).subrange(2, 2 + be16(s.skip(32)))
                            =~= Self::spec_id_bytes(s));
                    }
                }
                return Err(PacketError::DataError(e));
            },
        };
        proof {
            let s = old(buf).rem();
            assert(s.skip(32).subrange(2, 2 + be16(s.skip(32))) =~= Self::spec_id_bytes(s));
            assert(buf.rem() =~= s.skip(Self::spec_width(s)));
        }
        Ok(UConnPong { time, server_guid, magic, server_id })
    }
}

/// The second open-connection request: the magic token, the server's
/// address as the client sees it, the agreed MTU, and the client guid.
#[derive(Debug, Clone, PartialEq, Eq)]
pub struct OConnReq2 {
    pub magic: Magic,
    pub server_addr: Addr,
    pub mtu: u16,
    pub client_guid: i64,
}

impl OConnReq2 {
    /// The front of `s` holds a decodable request: the magic token, a
    /// complete socket address, the MTU and the guid.
    pub open spec fn spec_ok(s: Seq<u8>) -> bool {
        &&& s.len() >= 16
        &&& addr_ok(s.skip(16))
        &&& s.len() >= Self::spec_width(s)
    }

    /// The count of bytes the message occupies.
    pub open spec fn spec_width(s: Seq<u8>) -> int {
        26 + addr_len(s.skip(16))
    }

    /// `self` holds exactly the fields decoded from the front of `s`.
    pub open spec fn decodes_from(self, s: Seq<u8>) -> bool {
        &&& self.magic.0@ == s.take(16)
        &&& addr_matches(self.server_addr, s.skip(16))
        &&& self.mtu == be16(s.skip(16 + addr_len(s.skip(16))))
        &&& self.client_guid == be_i64(s.skip(18 + addr_len(s.skip(16))))
    }

    /// The failure an undecodable front of `s` reports.
    pub open spec fn spec_err(s: Seq<u8>) -> PacketError {
        if s.len() >= 17 && s[16] != 4 && s[16] != 6 {
            PacketError::DataError(DataError::UnsupportedIpv(s[16]))
        } else {
            PacketError::DataError(DataError::InsufficientByte)
        }
    }

    /// Decodes the second open-connection request: the magic token, the
    /// server address, the MTU, and the client guid.
    pub fn take<const N: usize>(buf: &mut SizedBuffer<N>) -> (r: Result<OConnReq2, PacketError>)
        requires
            old(buf).wf(),
        ensures
            final(buf).wf(),
            final(buf).spec_data() == old(buf).spec_data(),
            ({
                let s = old(buf).rem();
                &&& Self::spec_ok(s) <==> r is Ok
                &&& r matches Ok(p) ==> p.decodes_from(s) && SizedBuffer::advanced(
                    *old(buf),
                    *final(buf),
                    Self::spec_width(s),
                )
                &&& !Self::spec_ok(s) ==> r == Err::<OConnReq2, PacketError>(Self::spec_err(s))
            }),
    {
        let magic = match buf.take_magic() {
            Ok(v) => v,
            Err(e) => {
                return Err(PacketError::DataError(e));
            },
        };
        let server_addr = match buf.take_address() {
            Ok(v) => v,
            Err(e) => {
                return Err(PacketError::DataError(e));
            },
        };
        let mtu = match buf.take_u16() {
            Ok(v) => v,
            Err(e) => {
                return Err(PacketError::DataError(e));
            },
        };
        let client_guid = match buf.take_i64() {
            Ok(v) => v,
            Err(e) => {
                return Err(PacketError::DataError(e));
            },
        };
        proof {
            let s = old(buf).rem();
            let w = addr_len(s.skip(16));
            assert(s.skip(16).skip(w) =~= s.skip(16 + w));
            assert(s.skip(16 + w).skip(2) =~= s.skip(18 + w));
            assert(buf.rem() =~= s.skip(Self::spec_width(s)));
        }
        Ok(OConnReq2 { magic, server_addr, mtu, client_guid })
    }
}

/// The second open-connection reply: the magic token, the server guid, the
/// client's address as the server sees it, the agreed MTU, and the
/// security state.
#[derive(Debug, Clone, PartialEq, Eq)]
pub struct OConnReply2 {
    pub magic: Magic,
    pub server_guid: i64,
    pub client_addr: Addr,
    pub mtu: u16,
    pub security: SecurityState,
}

impl OConnReply2 {
    /// The front of `s` holds a decodable reply: the fixed fields around a
    /// complete socket address.
    pub open spec fn spec_ok(s: Seq<u8>) -> bool {
        &&& s.len() >= 24
        &&& addr_ok(s.skip(24))
        &&& s.len() >= Self::spec_width(s)
    }

    /// The count of bytes the message occupies.
    pub open spec fn spec_width(s: Seq<u8>) -> int {
        27 + addr_len(s.skip(24))
    }

    /// `self` holds exactly the fields decoded from the front of `s`.
    pub open spec fn decodes_from(self, s: Seq<u8>) -> bool {
        &&& self.magic.0@ == s.take(16)
        &&& self.server_guid == be_i64(s.skip(16))
        &&& addr_matches(self.client_addr, s.skip(24))
        &&& self.mtu == be16(s.skip(24 + addr_len(s.skip(24))))
        &&& self.security == spec_security(s[26 + addr_len(s.skip(24))])
    }

    /// The failure an undecodable front of `s` reports.
    pub open spec fn spec_err(s: Seq<u8>) -> PacketError {
        if s.len() >= 25 && s[24] != 4 && s[24] != 6 {
            PacketError::DataError(DataError::UnsupportedIpv(s[24]))
        } else {
            PacketError::DataError(DataError::InsufficientByte)
        }
    }

    /// Decodes the second open-connection reply: the magic token, the
    /// server guid, the client address, the MTU, and the security state.
    pub fn take<const N: usize>(buf: &mut SizedBuffer<N>) -> (r: Result<OConnReply2, PacketError>)
        requires
            old(buf).wf(),
        ensures
            final(buf).wf(),
            final(buf).spec_data() == old(buf).spec_data(),
            ({
                let s = old(buf).rem();
                &&& Self::spec_ok(s) <==> r is Ok
                &&& r matches Ok(p) ==> p.decodes_from(s) && SizedBuffer::advanced(
                    *old(buf),
                    *final(buf),
                    Self::spec_width(s),
                )
                &&& !Self::spec_ok(s) ==> r == Err::<OConnReply2, PacketError>(Self::spec_err(s))
            }),
    {
        let magic = match buf.take_magic() {
            Ok(v) => v,
            Err(e) => {
                return Err(PacketError::DataError(e));
            },
        };
        let server_guid = match buf.take_i64() {
            Ok(v) => v,
            Err(e) => {
                return Err(PacketError::DataError(e));
            },
        };
        proof {
            let s = old(buf).rem();
            assert(s.skip(16).skip(8) =~= s.skip(24));
        }
        let client_addr = match buf.take_address() {
            Ok(v) => v,
            Err(e) => {
                return Err(PacketError::DataError(e));
            },
        };
        let mtu = match buf.take_u16() {
            Ok(v) => v,
            Err(e) => {
                return Err(PacketError::DataError(e));
            },
        };
        let security = match SecurityState::take(buf) {
            Ok(v) => v,
            Err(e) => {
                return Err(e);
            },
        };
        proof {
            let s = old(buf).rem();
            let w = addr_len(s.skip(24));
            assert(s.skip(24).skip(w) =~= s.skip(24 + w));
            assert(s.skip(24 + w).skip(2) =~= s.skip(26 + w));
            assert(buf.rem() =~= s.skip(Self::spec_width(s)));
        }
        Ok(OConnReply2 { magic, server_guid, client_addr, mtu, security })
    }
}

/// A framed new-connection notice: the server address the client connected
/// to and the client's own internal address.
#[derive(Debug, Clone, PartialEq, Eq)]
pub struct NewConn {
    pub server_addr: Addr,
    pub internal_addr: Addr,
}

impl NewConn {
    /// The front of `s` holds two complete socket addresses.
    pub open spec fn spec_ok(s: Seq<u8>) -> bool {
        &&& addr_ok(s)
        &&& addr_ok(s.skip(addr_len(s)))
    }

    /// The count of bytes the message occupies.
    pub open spec fn spec_width(s: Seq<u8>) -> int {
        addr_len(s) + addr_len(s.skip(addr_len(s)))
    }

    /// `self` holds exactly the fields decoded from the front of `s`.
    pub open spec fn decodes_from(self, s: Seq<u8>) -> bool {
        &&& addr_matches(self.server_addr, s)
        &&& addr_matches(self.internal_addr, s.skip(addr_len(s)))
    }

    /// The failure an undecodable front of `s` reports: the failure of the
    /// first incomplete address.
    pub open spec fn spec_err(s: Seq<u8>) -> PacketError {
        if !addr_ok(s) {
            PacketError::DataError(addr_err(s))
        } else {
            PacketError::DataError(addr_err(s.skip(addr_len(s))))
        }
    }

    /// Decodes a new-connection notice: two socket addresses in sequence.
    pub fn take<const N: usize>(buf: &mut SizedBuffer<N>) -> (r: Result<NewConn, PacketError>)
        requires
            old(buf).wf(),
        ensures
            final(buf).wf(),
            final(buf).spec_data() == old(buf).spec_data(),
            ({
                let s = old(buf).rem();
                &&& Self::spec_ok(s) <==> r is Ok
                &&& r matches Ok(p) ==> p.decodes_from(s) && SizedBuffer::advanced(
                    *old(buf),
                    *final(buf),
                    Self::spec_width(s),
                )
                &&& !Self::spec_ok(s) ==> r == Err::<NewConn, PacketError>(Self::spec_err(s))
            }),
    {
        let server_addr = match buf.take_address() {
            Ok(v) => v,
            Err(e) => {
                return Err(PacketError::DataError(e));
            },
        };
        let internal_addr = match buf.take_address() {
            Ok(v) => v,
            Err(e) => {
                return Err(PacketError::DataError(e));
            },
        };
        proof {
            let s = old(buf).rem();
            assert(buf.rem() =~= s.skip(Self::spec_width(s)));
        }
        Ok(NewConn { server_addr, internal_addr })
    }
}

/// A framed acceptance of a connection request: the client's address as
/// the server sees it, a system index, ten internal addresses, and the
/// request and acceptance timestamps.
#[derive(Debug, Clone, PartialEq, Eq)]
pub struct ConnReqAccept {
    pub client_addr: Addr,
    pub system_index: i16,
    pub internal_addrs: Vec<Addr>,
    pub req_time: i64,
    pub time: i64,
}

impl ConnReqAccept {
    /// The combined width of the ten internal addresses.
    pub open spec fn spec_addrs_width(s: Seq<u8>) -> int {
        addrs_width(s.skip(addr_len(s) + 2), 10)
    }

    /// The front of `s` holds a decodable acceptance: a complete client
    /// address, the index, ten complete internal addresses, and two
    /// non-negative timestamps.
    pub open spec fn spec_ok(s: Seq<u8>) -> bool {
        &&& addr_ok(s)
        &&& s.len() >= addr_len(s) + 2
        &&& addrs_ok(s.skip(addr_len(s) + 2), 10)
        &&& s.len() >= Self::spec_width(s)
        &&& be_i64(s.skip(addr_len(s) + 2 + Self::spec_addrs_width(s))) >= 0
        &&& be_i64(s.skip(addr_len(s) + 10 + Self::spec_addrs_width(s))) >= 0
    }

    /// The count of bytes the message occupies.
    pub open spec fn spec_width(s: Seq<u8>) -> int {
        addr_len(s) + 18 + Self::spec_addrs_width(s)
    }

    /// `self` holds exactly the fields decoded from the front of `s`.
    pub open spec fn decodes_from(self, s: Seq<u8>) -> bool {
        &&& addr_matches(self.client_addr, s)
        &&& self.system_index == be_i16(s.skip(addr_len(s)))
        &&& addrs_match(self.internal_addrs@, s.skip(addr_len(s) + 2), 10)
        &&& self.req_time == be_i64(s.skip(addr_len(s) + 2 + Self::spec_addrs_width(s)))
        &&& self.time == be_i64(s.skip(addr_len(s) + 10 + Self::spec_addrs_width(s)))
    }

    /// The failure an undecodable front of `s` reports: the failure of the
    /// first field, in decode order, that cannot be read.
    pub open spec fn spec_err(s: Seq<u8>) -> PacketError {
        if !addr_ok(s) {
            PacketError::DataError(addr_err(s))
        } else if s.len() < addr_len(s) + 2 {
            PacketError::DataError(DataError::InsufficientByte)
        } else if !addrs_ok(s.skip(addr_len(s) + 2), 10) {
            PacketError::DataError(addrs_err(s.skip(addr_len(s) + 2), 10))
        } else if s.len() < addr_len(s) + 10 + Self::spec_addrs_width(s) {
            PacketError::DataError(DataError::InsufficientByte)
        } else if be_i64(s.skip(addr_len(s) + 2 + Self::spec_addrs_width(s))) < 0 {
            PacketError::DataError(DataError::InvalidTime)
        } else if s.len() < Self::spec_width(s) {
            PacketError::DataError(DataError::InsufficientByte)
        } else {
            PacketError::DataError(DataError::InvalidTime)
        }
    }

    /// Decodes an acceptance: the client address, the system index, ten
    /// internal addresses, and the two timestamps.
    pub fn take<const N: usize>(buf: &mut SizedBuffer<N>) -> (r: Result<ConnReqAccept, PacketError>)
        requires
            old(buf).wf(),
        ensures
            final(buf).wf(),
            final(buf).spec_data() == old(buf).spec_data(),
            ({
                let s = old(buf).rem();
                &&& Self::spec_ok(s) <==> r is Ok
                &&& r matches Ok(p) ==> p.decodes_from(s) && SizedBuffer::advanced(
                    *old(buf),
                    *final(buf),
                    Self::spec_width(s),
                )
                &&& !Self::spec_ok(s) ==> r == Err::<ConnReqAccept, PacketError>(Self::spec_err(s))
            }),
    {
        let ghost s = old(buf).rem();
        let client_addr = match buf.take_address() {
            Ok(v) => v,
            Err(e) => {
                return Err(PacketError::DataError(e));
            },
        };
        let system_index = match buf.take_i16() {
            Ok(v) => v,
            Err(e) => {
                return Err(PacketError::DataError(e));
            },
        };
        proof {
            assert(buf.rem() =~= s.skip(addr_len(s) + 2));
        }
        let internal_addrs = match buf.take_addresses(10) {
            Ok(v) => v,
            Err(e) => {
                return Err(PacketError::DataError(e));
            },
        };
        proof {
            crate::types::lemma_addrs_width_bounds(s.skip(addr_len(s) + 2), 10);
            assert(buf.rem() =~= s.skip(addr_len(s) + 2 + Self::spec_addrs_width(s)));
        }
        let req_time = match buf.take_time() {
            Ok(v) => v,
            Err(e) => {
                return Err(PacketError::DataError(e));
            },
        };
        proof {
            assert(buf.rem() =~= s.skip(addr_len(s) + 10 + Self::spec_addrs_width(s)));
        }
        let time = match buf.take_time() {
            Ok(v) => v,
            Err(e) => {
                return Err(PacketError::DataError(e));
            },
        };
        proof {
            assert(buf.rem() =~= s.skip(Self::spec_width(s)));
        }
        Ok(ConnReqAccept { client_addr, system_index, internal_addrs, req_time, time })
    }
}

/// A framed disconnect notice; it carries no fields.
#[derive(Debug, Clone, PartialEq, Eq)]
pub struct DisConn {}

/// A framed game-protocol payload marker; the payload itself is opaque to
/// this codec.
#[derive(Debug, Clone, PartialEq, Eq)]
pub struct Game {}

/// The per-frame flags, decoded from the top four bits of a frame's first
/// byte: the nibble's least-significant bit marks fragmentation, and the
/// remaining three bits index a fixed table of reliability combinations.
#[derive(Debug, Clone, Copy, PartialEq, Eq, Structural)]
pub struct Flag {
    pub is_reliable: bool,
    pub is_order: bool,
    pub is_sequence: bool,
    pub need_ack: bool,
    pub is_fragment: bool,
}

/// The three-bit reliability table index of the flag byte `b`: the byte's
/// top three bits.
pub open spec fn flag_index(b: u8) -> u8 {
    b >> 5
}

/// The flags denoted by the byte `b`. The table maps index 0 through 7 to
/// `(is_reliable, is_order, is_sequence, need_ack)` as: 0 (F,F,F,F),
/// 1 (F,T,T,F), 2 (T,F,F,F), 3 (T,T,F,F), 4 (T,T,T,F), 5 (F,F,F,T),
/// 6 (T,F,F,T), 7 (T,T,F,T); bit 4 of `b` marks fragmentation.
pub open spec fn spec_flag(b: u8) -> Flag {
    Flag {
        is_reliable: flag_index(b) == 2 || flag_index(b) == 3 || flag_index(b) == 4 || flag_index(
            b,
        ) == 6 || flag_index(b) == 7,
        is_order: flag_index(b) == 1 || flag_index(b) == 3 || flag_index(b) == 4 || flag_index(b)
            == 7,
        is_sequence: flag_index(b) == 1 || flag_index(b) == 4,
        need_ack: flag_index(b) == 5 || flag_index(b) == 6 || flag_index(b) == 7,
        is_fragment: (b >> 4) & 1 != 0,
    }
}

impl Flag {
    /// Decodes the flags from a frame's first byte.
    pub fn take<const N: usize>(buf: &mut SizedBuffer<N>) -> (r: Result<Flag, PacketError>)
        requires
            old(buf).wf(),
        ensures
            final(buf).wf(),
            old(buf).spec_len() < 1 ==> r == Err::<Flag, PacketError>(
                PacketError::DataError(DataError::InsufficientByte),
            ) && SizedBuffer::unchanged(*old(buf), *final(buf)),
            old(buf).spec_len() >= 1 ==> r == Ok::<Flag, PacketError>(
                spec_flag(old(buf).rem()[0]),
            ) && SizedBuffer::advanced(*old(buf), *final(buf), 1),
    {
        let byte = match buf.take_u8() {
            Ok(v) => v,
            Err(e) => {
                return Err(PacketError::DataError(e));
            },
        };
        let is_fragment = (byte >> 4) & 1 != 0;
        let idx = byte >> 5;
        let is_reliable = idx == 2 || idx == 3 || idx == 4 || idx == 6 || idx == 7;
        let is_order = idx == 1 || idx == 3 || idx == 4 || idx == 7;
        let is_sequence = idx == 1 || idx == 4;
        let need_ack = idx == 5 || idx == 6 || idx == 7;
        Ok(Flag { is_reliable, is_order, is_sequence, need_ack, is_fragment })
    }
}

/// A frame's ordering metadata: a 24-bit order index and a channel byte.
#[derive(Debug, Clone, Copy, PartialEq, Eq, Structural)]
pub struct Order {
    pub index: u32,
    pub channel: u8,
}

impl Order {
    /// The front of `s` holds decodable ordering metadata: four bytes.
    pub open spec fn spec_ok(s: Seq<u8>) -> bool {
        s.len() >= 4
    }

    /// `self` holds exactly the fields decoded from the front of `s`.
    pub open spec fn decodes_from(self, s: Seq<u8>) -> bool {
        &&& self.index == le24(s)
        &&& self.channel == s[3]
    }

    /// The failure an undecodable front of `s` reports.
    pub open spec fn spec_err(s: Seq<u8>) -> PacketError {
        PacketError::DataError(DataError::InsufficientByte)
    }

    /// Decodes ordering metadata: a 24-bit index, then the channel byte.
    pub fn take<const N: usize>(buf: &mut SizedBuffer<N>) -> (r: Result<Order, PacketError>)
        requires
            old(buf).wf(),
        ensures
            final(buf).wf(),
            final(buf).spec_data() == old(buf).spec_data(),
            ({
                let s = old(buf).rem();
                &&& Self::spec_ok(s) <==> r is Ok
                &&& r matches Ok(p) ==> p.decodes_from(s) && SizedBuffer::advanced(
                    *old(buf),
                    *final(buf),
                    4,
                )
                &&& !Self::spec_ok(s) ==> r == Err::<Order, PacketError>(Self::spec_err(s))
            }),
    {
        let index = match buf.take_u24() {
            Ok(v) => v,
            Err(e) => {
                return Err(PacketError::DataError(e));
            },
        };
        let channel = match buf.take_u8() {
            Ok(v) => v,
            Err(e) => {
                return Err(PacketError::DataError(e));
            },
        };
        proof {
            assert(buf.rem() =~= old(buf).rem().skip(4));
        }
        Ok(Order { index, channel })
    }
}

/// A frame's fragmentation metadata: the compound's declared fragment
/// count, the compound id shared by all its fragments, and this fragment's
/// index.
#[derive(Debug, Clone, Copy, PartialEq, Eq, Structural)]
pub struct Fragment {
    pub compound_size: u32,
    pub compound_id: u16,
    pub index: u32,
}

impl Fragment {
    /// The front of `s` holds decodable fragmentation metadata: ten bytes.
    pub open spec fn spec_ok(s: Seq<u8>) -> bool {
        s.len() >= 10
    }

    /// `self` holds exactly the fields decoded from the front of `s`.
    pub open spec fn decodes_from(self, s: Seq<u8>) -> bool {
        &&& self.compound_size == be32(s)
        &&& self.compound_id == be16(s.skip(4))
        &&& self.index == be32(s.skip(6))
    }

    /// The failure an undecodable front of `s` reports.
    pub open spec fn spec_err(s: Seq<u8>) -> PacketError {
        PacketError::DataError(DataError::InsufficientByte)
    }

    /// Decodes fragmentation metadata: the compound size, the compound id,
    /// and the fragment index, ten bytes in all.
    pub fn take<const N: usize>(buf: &mut SizedBuffer<N>) -> (r: Result<Fragment, PacketError>)
        requires
            old(buf).wf(),
        ensures
            final(buf).wf(),
            final(buf).spec_data() == old(buf).spec_data(),
            ({
                let s = old(buf).rem();
                &&& Self::spec_ok(s) <==> r is Ok
                &&& r matches Ok(p) ==> p.decodes_from(s) && SizedBuffer::advanced(
                    *old(buf),
                    *final(buf),
                    10,
                )
                &&& !Self::spec_ok(s) ==> r == Err::<Fragment, PacketError>(Self::spec_err(s))
            }),
    {
        let compound_size = match buf.take_u32() {
            Ok(v) => v,
            Err(e) => {
                return Err(PacketError::DataError(e));
            },
        };
        let compound_id = match buf.take_u16() {
            Ok(v) => v,
            Err(e) => {
                return Err(PacketError::DataError(e));
            },
        };
        let index = match buf.take_u32() {
            Ok(v) => v,
            Err(e) => {
                return Err(PacketError::DataError(e));
            },
        };
        proof {
            let s = old(buf).rem();
            assert(s.skip(4).skip(2) =~= s.skip(6));
            assert(buf.rem() =~= s.skip(10));
        }
        Ok(Fragment { compound_size, compound_id, index })
    }
}

/// One acknowledgement entry: either a single 24-bit sequence number or an
/// inclusive range of them, selected by a leading boolean.
#[derive(Debug, Clone, Copy, PartialEq, Eq, Structural)]
pub enum Record {
    Single(u32),
    Range { begin: u32, end: u32 },
}

impl Record {
    /// The front of `s` holds a decodable record: the selector byte, then
    /// one 24-bit number for a single record or two for a range.
    pub open spec fn spec_ok(s: Seq<u8>) -> bool {
        &&& s.len() >= 1
        &&& s.len() >= Self::spec_width(s)
    }

    /// The count of bytes the record occupies.
    pub open spec fn spec_width(s: Seq<u8>) -> int {
        if s[0] != 0 {
            4
        } else {
            7
        }
    }

    /// `self` holds exactly the record decoded from the front of `s`.
    pub open spec fn decodes_from(self, s: Seq<u8>) -> bool {
        if s[0] != 0 {
            self matches Record::Single(v) && v == le24(s.skip(1))
        } else {
            self matches Record::Range { begin, end } && begin == le24(s.skip(1)) && end == le24(
                s.skip(4),
            )
        }
    }

    /// The failure an undecodable front of `s` reports.
    pub open spec fn spec_err(s: Seq<u8>) -> PacketError {
        PacketError::DataError(DataError::InsufficientByte)
    }

    /// Decodes one acknowledgement record: a boolean selector, then a
    /// single 24-bit number or an inclusive begin/end pair.
    pub fn take<const N: usize>(buf: &mut SizedBuffer<N>) -> (r: Result<Record, PacketError>)
        requires
            old(buf).wf(),
        ensures
            final(buf).wf(),
            final(buf).spec_data() == old(buf).spec_data(),
            ({
                let s = old(buf).rem();
                &&& Self::spec_ok(s) <==> r is Ok
                &&& r matches Ok(p) ==> p.decodes_from(s) && SizedBuffer::advanced(
                    *old(buf),
                    *final(buf),
                    Self::spec_width(s),
                )
                &&& !Self::spec_ok(s) ==> r == Err::<Record, PacketError>(Self::spec_err(s))
            }),
    {
        let is_single = match buf.take_bool() {
            Ok(v) => v,
            Err(e) => {
                return Err(PacketError::DataError(e));
            },
        };
        if is_single {
            let num = match buf.take_u24() {
                Ok(v) => v,
                Err(e) => {
                    return Err(PacketError::DataError(e));
                },
            };
            proof {
                assert(buf.rem() =~= old(buf).rem().skip(4));
            }
            Ok(Record::Single(num))
        } else {
            let begin = match buf.take_u24() {
                Ok(v) => v,
                Err(e) => {
                    return Err(PacketError::DataError(e));
                },
            };
            let end = match buf.take_u24() {
                Ok(v) => v,
                Err(e) => {
                    return Err(PacketError::DataError(e));
                },
            };
            proof {
                let s = old(buf).rem();
                assert(s.skip(1).skip(3) =~= s.skip(4));
                assert(buf.rem() =~= s.skip(7));
            }
            Ok(Record::Range { begin, end })
        }
    }
}

/// A negative acknowledgement: a declared record count and one record.
/// The grammar decodes a single record regardless of the declared count, a
/// documented limitation of this codec.
#[derive(Debug, Clone, Copy, PartialEq, Eq, Structural)]
pub struct Nack {
    pub record_count: u16,
    pub record: Record,
}

impl Nack {
    /// The front of `s` holds a decodable negative acknowledgement.
    pub open spec fn spec_ok(s: Seq<u8>) -> bool {
        s.len() >= 2 && Record::spec_ok(s.skip(2))
    }

    /// The count of bytes the message occupies.
    pub open spec fn spec_width(s: Seq<u8>) -> int {
        2 + Record::spec_width(s.skip(2))
    }

    /// `self` holds exactly the fields decoded from the front of `s`.
    pub open spec fn decodes_from(self, s: Seq<u8>) -> bool {
        &&& self.record_count == be16(s)
        &&& self.record.decodes_from(s.skip(2))
    }

    /// The failure an undecodable front of `s` reports.
    pub open spec fn spec_err(s: Seq<u8>) -> PacketError {
        PacketError::DataError(DataError::InsufficientByte)
    }

    /// Decodes a negative acknowledgement: the record count, then one
    /// record.
    pub fn take<const N: usize>(buf: &mut SizedBuffer<N>) -> (r: Result<Nack, PacketError>)
        requires
            old(buf).wf(),
        ensures
            final(buf).wf(),
            final(buf).spec_data() == old(buf).spec_data(),
            ({
                let s = old(buf).rem();
                &&& Self::spec_ok(s) <==> r is Ok
                &&& r matches Ok(p) ==> p.decodes_from(s) && SizedBuffer::advanced(
                    *old(buf),
                    *final(buf),
                    Self::spec_width(s),
                )
                &&& !Self::spec_ok(s) ==> r == Err::<Nack, PacketError>(Self::spec_err(s))
            }),
    {
        let record_count = match buf.take_u16() {
            Ok(v) => v,
            Err(e) => {
                return Err(PacketError::DataError(e));
            },
        };
        let record = match Record::take(buf) {
            Ok(v) => v,
            Err(e) => {
                return Err(e);
            },
        };
        proof {
            let s = old(buf).rem();
            assert(buf.rem() =~= s.skip(Self::spec_width(s)));
        }
        Ok(Nack { record_count, record })
    }
}

/// A positive acknowledgement: a declared record count and one record.
/// The grammar decodes a single record regardless of the declared count, a
/// documented limitation of this codec.
#[derive(Debug, Clone, Copy, PartialEq, Eq, Structural)]
pub struct Ack {
    pub record_count: u16,
    pub record: Record,
}

impl Ack {
    /// The front of `s` holds a decodable acknowledgement.
    pub open spec fn spec_ok(s: Seq<u8>) -> bool {
        s.len() >= 2 && Record::spec_ok(s.skip(2))
    }

    /// The count of bytes the message occupies.
    pub open spec fn spec_width(s: Seq<u8>) -> int {
        2 + Record::spec_width(s.skip(2))
    }

    /// `self` holds exactly the fields decoded from the front of `s`.
    pub open spec fn decodes_from(self, s: Seq<u8>) -> bool {
        &&& self.record_count == be16(s)
        &&& self.record.decodes_from(s.skip(2))
    }

    /// The failure an undecodable front of `s` reports.
    pub open spec fn spec_err(s: Seq<u8>) -> PacketError {
        PacketError::DataError(DataError::InsufficientByte)
    }

    /// Decodes a positive acknowledgement: the record count, then one
    /// record.
    pub fn take<const N: usize>(buf: &mut SizedBuffer<N>) -> (r: Result<Ack, PacketError>)
        requires
            old(buf).wf(),
        ensures
            final(buf).wf(),
            final(buf).spec_data() == old(buf).spec_data(),
            ({
                let s = old(buf).rem();
                &&& Self::spec_ok(s) <==> r is Ok
                &&& r matches Ok(p) ==> p.decodes_from(s) && SizedBuffer::advanced(
                    *old(buf),
                    *final(buf),
                    Self::spec_width(s),
                )
                &&& !Self::spec_ok(s) ==> r == Err::<Ack, PacketError>(Self::spec_err(s))
            }),
    {
        let record_count = match buf.take_u16() {
            Ok(v) => v,
            Err(e) => {
                return Err(PacketError::DataError(e));
            },
        };
        let record = match Record::take(buf) {
            Ok(v) => v,
            Err(e) => {
                return Err(e);
            },
        };
        proof {
            let s = old(buf).rem();
            assert(buf.rem() =~= s.skip(Self::spec_width(s)));
        }
        Ok(Ack { record_count, record })
    }
}

/// The width of a frame's optional reliable index: three bytes when the
/// flags select it.
pub open spec fn rel_width(f: Flag) -> int {
    if f.is_reliable {
        3
    } else {
        0
    }
}

/// The width of a frame's optional sequence index: three bytes when the
/// flags select it.
pub open spec fn seq_width(f: Flag) -> int {
    if f.is_sequence {
        3
    } else {
        0
    }
}

/// The width of a frame's optional ordering metadata: four bytes when the
/// flags select it.
pub open spec fn ord_width(f: Flag) -> int {
    if f.is_order {
        4
    } else {
        0
    }
}

/// The width of a frame's optional fragmentation metadata: ten bytes when
/// the flags select it.
pub open spec fn frag_width(f: Flag) -> int {
    if f.is_fragment {
        10
    } else {
        0
    }
}

/// The byte count of a frame's header: the flag byte, the 16-bit
/// bit-length, and the optional sub-fields the flags select.
pub open spec fn frame_header_len(f: Flag) -> int {
    3 + rel_width(f) + seq_width(f) + ord_width(f) + frag_width(f)
}

/// One logical unit inside a frame set: the flags, the payload's declared
/// bit length, the optional reliability, sequencing, ordering and
/// fragmentation metadata, and the opaque payload body of `bit_len / 8`
/// bytes, copied out of the datagram.
#[derive(Debug, Clone, PartialEq, Eq)]
pub struct Frame {
    pub flag: Flag,
    pub bit_len: u16,
    pub reliable_index: Option<u32>,
    pub sequence_index: Option<u32>,
    pub order: Option<Order>,
    pub fragment: Option<Fragment>,
    pub body: Vec<u8>,
}

impl Frame {
    /// The front of `s` holds a decodable frame: the header the flag byte
    /// announces, and a full payload body.
    pub open spec fn spec_ok(s: Seq<u8>) -> bool {
        &&& s.len() >= 3
        &&& s.len() >= Self::spec_width(s)
    }

    /// The count of bytes the frame occupies: its header and its body.
    pub open spec fn spec_width(s: Seq<u8>) -> int {
        frame_header_len(spec_flag(s[0])) + be16(s.skip(1)) / 8
    }

    /// `self` holds exactly the frame decoded from the front of `s`: each
    /// optional sub-field is present precisely when its flag bit selects
    /// it, in the order reliable, sequence, order, fragment.
    pub open spec fn decodes_from(self, s: Seq<u8>) -> bool {
        let f = spec_flag(s[0]);
        let so = 3 + rel_width(f);
        let oo = 3 + rel_width(f) + seq_width(f);
        let go = 3 + rel_width(f) + seq_width(f) + ord_width(f);
        let h = frame_header_len(f);
        &&& self.flag == f
        &&& self.bit_len == be16(s.skip(1))
        &&& if f.is_reliable {
            self.reliable_index matches Some(v) && v == le24(s.skip(3))
        } else {
            self.reliable_index is None
        }
        &&& if f.is_sequence {
            self.sequence_index matches Some(v) && v == le24(s.skip(so))
        } else {
            self.sequence_index is None
        }
        &&& if f.is_order {
            self.order matches Some(o) && o.decodes_from(s.skip(oo))
        } else {
            self.order is None
        }
        &&& if f.is_fragment {
            self.fragment matches Some(g) && g.decodes_from(s.skip(go))
        } else {
            self.fragment is None
        }
        &&& self.body@ == s.subrange(h, h + be16(s.skip(1)) / 8)
    }

    /// The failure an undecodable front of `s` reports.
    pub open spec fn spec_err(s: Seq<u8>) -> PacketError {
        PacketError::DataError(DataError::InsufficientByte)
    }

    /// Decodes one frame: the flags, the bit length, then, strictly in the
    /// order reliable, sequence, order, fragment, each optional sub-field
    /// gated by its flag bit, and finally the payload body of `bit_len / 8`
    /// bytes.
    #[verifier::spinoff_prover]
    #[verifier::rlimit(100)]
    pub fn take<const N: usize>(buf: &mut SizedBuffer<N>) -> (r: Result<Frame, PacketError>)
        requires
            old(buf).wf(),
        ensures
            final(buf).wf(),
            final(buf).spec_data() == old(buf).spec_data(),
            ({
                let s = old(buf).rem();
                &&& Self::spec_ok(s) <==> r is Ok
                &&& r matches Ok(p) ==> p.decodes_from(s) && SizedBuffer::advanced(
                    *old(buf),
                    *final(buf),
                    Self::spec_width(s),
                )
                &&& !Self::spec_ok(s) ==> r == Err::<Frame, PacketError>(Self::spec_err(s))
            }),
    {
        let ghost s = old(buf).rem();
        let flag = match Flag::take(buf) {
            Ok(v) => v,
            Err(e) => {
                return Err(e);
            },
        };
        let bit_len = match buf.take_u16() {
            Ok(v) => v,
            Err(e) => {
                return Err(PacketError::DataError(e));
            },
        };
        proof {
            assert(buf.rem() =~= s.skip(3));
        }
        let mut reliable_index: Option<u32> = None;
        let mut sequence_index: Option<u32> = None;
        let mut order: Option<Order> = None;
        let mut fragment: Option<Fragment> = None;
        if flag.is_reliable {
            reliable_index = match buf.take_u24() {
                Ok(v) => Some(v),
                Err(e) => {
                    return Err(PacketError::DataError(e));
                },
            };
        }
        proof {
            assert(buf.rem() =~= s.skip(3 + rel_width(spec_flag(s[0]))));
        }
        if flag.is_sequence {
            sequence_index = match buf.take_u24() {
                Ok(v) => Some(v),
                Err(e) => {
                    return Err(PacketError::DataError(e));
                },
            };
        }
        proof {
            let f = spec_flag(s[0]);
            assert(buf.rem() =~= s.skip(3 + rel_width(f) + seq_width(f)));
        }
        if flag.is_order {
            order = match Order::take(buf) {
                Ok(v) => Some(v),
                Err(e) => {
                    return Err(e);
                },
            };
        }
        proof {
            let f = spec_flag(s[0]);
            assert(buf.rem() =~= s.skip(3 + rel_width(f) + seq_width(f) + ord_width(f)));
        }
        if flag.is_fragment {
            fragment = match Fragment::take(buf) {
                Ok(v) => Some(v),
                Err(e) => {
                    return Err(e);
                },
            };
        }
        proof {
            assert(buf.rem() =~= s.skip(frame_header_len(spec_flag(s[0]))));
        }
        let body = match buf.take_bytes((bit_len / 8) as usize) {
            Ok(v) => v,
            Err(e) => {
                return Err(PacketError::DataError(e));
            },
        };
        proof {
            let h = frame_header_len(spec_flag(s[0]));
            assert(body@ =~= s.subrange(h, h + be16(s.skip(1)) / 8));
            assert(buf.rem() =~= s.skip(Self::spec_width(s)));
        }
        Ok(Frame { flag, bit_len, reliable_index, sequence_index, order, fragment, body })
    }
}

/// A frame-set datagram: a 24-bit datagram sequence number and one frame.
/// Real RakNet allows several frames in one datagram; this codec decodes
/// exactly one, a documented limitation.
#[derive(Debug, Clone, PartialEq, Eq)]
pub struct FrameSet {
    pub sequence: u32,
    pub frame: Frame,
}

impl FrameSet {
    /// The front of `s` holds a decodable frame set: the sequence number
    /// and one complete frame.
    pub open spec fn spec_ok(s: Seq<u8>) -> bool {
        s.len() >= 3 && Frame::spec_ok(s.skip(3))
    }

    /// The count of bytes the frame set occupies.
    pub open spec fn spec_width(s: Seq<u8>) -> int {
        3 + Frame::spec_width(s.skip(3))
    }

    /// `self` holds exactly the frame set decoded from the front of `s`.
    pub open spec fn decodes_from(self, s: Seq<u8>) -> bool {
        &&& self.sequence == le24(s)
        &&& self.frame.decodes_from(s.skip(3))
    }

    /// The failure an undecodable front of `s` reports.
    pub open spec fn spec_err(s: Seq<u8>) -> PacketError {
        PacketError::DataError(DataError::InsufficientByte)
    }

    /// Decodes a frame set: the 24-bit datagram sequence number, then one
    /// frame.
    pub fn take<const N: usize>(buf: &mut SizedBuffer<N>) -> (r: Result<FrameSet, PacketError>)
        requires
            old(buf).wf(),
        ensures
            final(buf).wf(),
            final(buf).spec_data() == old(buf).spec_data(),
            ({
                let s = old(buf).rem();
                &&& Self::spec_ok(s) <==> r is Ok
                &&& r matches Ok(p) ==> p.decodes_from(s) && SizedBuffer::advanced(
                    *old(buf),
                    *final(buf),
                    Self::spec_width(s),
                )
                &&& !Self::spec_ok(s) ==> r == Err::<FrameSet, PacketError>(Self::spec_err(s))
            }),
    {
        let sequence = match buf.take_u24() {
            Ok(v) => v,
            Err(e) => {
                return Err(PacketError::DataError(e));
            },
        };
        let frame = match Frame::take(buf) {
            Ok(v) => v,
            Err(e) => {
                return Err(e);
            },
        };
        proof {
            let s = old(buf).rem();
            assert(buf.rem() =~= s.skip(Self::spec_width(s)));
        }
        Ok(FrameSet { sequence, frame })
    }
}

/// A fully decoded outer message, as [`decode_packet`] yields it to the
/// relay for inspection.
#[derive(Debug, Clone, PartialEq, Eq)]
pub enum Packet {
    UConnPing(UConnPing),
    UConnConnPing(UConnConnPing),
    UConnPong(UConnPong),
    OConnReq1(OConnReq1),
    OConnReply1(OConnReply1),
    OConnReq2(OConnReq2),
    OConnReply2(OConnReply2),
    Incompatible(Incompatible),
    FrameSet(FrameSet),
    Nack(Nack),
    Ack(Ack),
}

/// The decode entry point: reads the leading id byte and decodes the full
/// message of that kind. The result is exactly the kind's own decoder
/// applied past the id byte; a failure carries that decoder's error, or
/// `UnknownPacket` for an unrecognised id.
pub fn decode_packet<const N: usize>(buf: &mut SizedBuffer<N>) -> (r: Result<Packet, PacketError>)
    requires
        old(buf).wf(),
    ensures
        final(buf).wf(),
        final(buf).spec_data() == old(buf).spec_data(),
        ({
            let s = old(buf).rem();
            let t = s.skip(1);
            &&& s.len() < 1 ==> r == Err::<Packet, PacketError>(
                PacketError::DataError(DataError::InsufficientByte),
            )
            &&& s.len() >= 1 && spec_packet_id(s[0]) is None ==> r == Err::<Packet, PacketError>(
                PacketError::UnknownPacket,
            )
            &&& r is Ok ==> s.len() >= 1 && spec_packet_id(s[0]) is Some
            &&& s.len() >= 1 && spec_packet_id(s[0]) == Some(PacketId::UConnPing) ==> {
                &&& UConnPing::spec_ok(t) <==> r is Ok
                &&& !UConnPing::spec_ok(t) ==> r == Err::<Packet, PacketError>(UConnPing::spec_err(t))
                &&& r matches Ok(k) ==> (k matches Packet::UConnPing(p) && p.decodes_from(t)
                    && SizedBuffer::advanced(*old(buf), *final(buf), 33))
            }
            &&& s.len() >= 1 && spec_packet_id(s[0]) == Some(PacketId::UConnConnPing) ==> {
                &&& UConnConnPing::spec_ok(t) <==> r is Ok
                &&& !UConnConnPing::spec_ok(t) ==> r == Err::<Packet, PacketError>(UConnConnPing::spec_err(t))
                &&& r matches Ok(k) ==> (k matches Packet::UConnConnPing(p) && p.decodes_from(t)
                    && SizedBuffer::advanced(*old(buf), *final(buf), 33))
            }
            &&& s.len() >= 1 && spec_packet_id(s[0]) == Some(PacketId::UConnPong) ==> {
                &&& UConnPong::spec_ok(t) <==> r is Ok
                &&& !UConnPong::spec_ok(t) ==> r == Err::<Packet, PacketError>(UConnPong::spec_err(t))
                &&& r matches Ok(k) ==> (k matches Packet::UConnPong(p) && p.decodes_from(t)
                    && SizedBuffer::advanced(*old(buf), *final(buf), 1 + UConnPong::spec_width(t)))
            }
            &&& s.len() >= 1 && spec_packet_id(s[0]) == Some(PacketId::OConnReq1) ==> {
                &&& OConnReq1::spec_ok(t) <==> r is Ok
                &&& !OConnReq1::spec_ok(t) ==> r == Err::<Packet, PacketError>(OConnReq1::spec_err(t))
                &&& r matches Ok(k) ==> (k matches Packet::OConnReq1(p) && p.decodes_from(t)
                    && SizedBuffer::advanced(*old(buf), *final(buf), 18))
            }
            &&& s.len() >= 1 && spec_packet_id(s[0]) == Some(PacketId::OConnReply1) ==> {
                &&& OConnReply1::spec_ok(t) <==> r is Ok
                &&& !OConnReply1::spec_ok(t) ==> r == Err::<Packet, PacketError>(OConnReply1::spec_err(t))
                &&& r matches Ok(k) ==> (k matches Packet::OConnReply1(p) && p.decodes_from(t)
                    && SizedBuffer::advanced(*old(buf), *final(buf), 28))
            }
            &&& s.len() >= 1 && spec_packet_id(s[0]) == Some(PacketId::OConnReq2) ==> {
                &&& OConnReq2::spec_ok(t) <==> r is Ok
                &&& !OConnReq2::spec_ok(t) ==> r == Err::<Packet, PacketError>(OConnReq2::spec_err(t))
                &&& r matches Ok(k) ==> (k matches Packet::OConnReq2(p) && p.decodes_from(t)
                    && SizedBuffer::advanced(*old(buf), *final(buf), 1 + OConnReq2::spec_width(t)))
            }
            &&& s.len() >= 1 && spec_packet_id(s[0]) == Some(PacketId::OConnReply2) ==> {
                &&& OConnReply2::spec_ok(t) <==> r is Ok
                &&& !OConnReply2::spec_ok(t) ==> r == Err::<Packet, PacketError>(OConnReply2::spec_err(t))
                &&& r matches Ok(k) ==> (k matches Packet::OConnReply2(p) && p.decodes_from(t)
                    && SizedBuffer::advanced(
                    *old(buf),
                    *final(buf),
                    1 + OConnReply2::spec_width(t),
                ))
            }
            &&& s.len() >= 1 && spec_packet_id(s[0]) == Some(PacketId::Incompatible) ==> {
                &&& Incompatible::spec_ok(t) <==> r is Ok
                &&& !Incompatible::spec_ok(t) ==> r == Err::<Packet, PacketError>(Incompatible::spec_err(t))
                &&& r matches Ok(k) ==> (k matches Packet::Incompatible(p) && p.decodes_from(t)
                    && SizedBuffer::advanced(*old(buf), *final(buf), 26))
            }
            &&& s.len() >= 1 && (spec_packet_id(s[0]) matches Some(PacketId::FrameSet(_))) ==> {
                &&& FrameSet::spec_ok(t) <==> r is Ok
                &&& !FrameSet::spec_ok(t) ==> r == Err::<Packet, PacketError>(FrameSet::spec_err(t))
                &&& r matches Ok(k) ==> (k matches Packet::FrameSet(p) && p.decodes_from(t)
                    && SizedBuffer::advanced(*old(buf), *final(buf), 1 + FrameSet::spec_width(t)))
            }
            &&& s.len() >= 1 && spec_packet_id(s[0]) == Some(PacketId::Nack) ==> {
                &&& Nack::spec_ok(t) <==> r is Ok
                &&& !Nack::spec_ok(t) ==> r == Err::<Packet, PacketError>(Nack::spec_err(t))
                &&& r matches Ok(k) ==> (k matches Packet::Nack(p) && p.decodes_from(t)
                    && SizedBuffer::advanced(*old(buf), *final(buf), 1 + Nack::spec_width(t)))
            }
            &&& s.len() >= 1 && spec_packet_id(s[0]) == Some(PacketId::Ack) ==> {
                &&& Ack::spec_ok(t) <==> r is Ok
                &&& !Ack::spec_ok(t) ==> r == Err::<Packet, PacketError>(Ack::spec_err(t))
                &&& r matches Ok(k) ==> (k matches Packet::Ack(p) && p.decodes_from(t)
                    && SizedBuffer::advanced(*old(buf), *final(buf), 1 + Ack::spec_width(t)))
            }
        }),
{
    let ghost s = old(buf).rem();
    let id = match PacketId::take(buf) {
        Ok(v) => v,
        Err(e) => {
            return Err(e);
        },
    };
    proof {
        assert(buf.rem() =~= s.skip(1));
    }
    match id {
        PacketId::UConnPing => match UConnPing::take(buf) {
            Ok(p) => {
                proof {
                    assert(buf.rem() =~= s.skip(33));
                }
                Ok(Packet::UConnPing(p))
            },
            Err(e) => Err(e),
        },
        PacketId::UConnConnPing => match UConnConnPing::take(buf) {
            Ok(p) => {
                proof {
                    assert(buf.rem() =~= s.skip(33));
                }
                Ok(Packet::UConnConnPing(p))
            },
            Err(e) => Err(e),
        },
        PacketId::UConnPong => match UConnPong::take(buf) {
            Ok(p) => {
                proof {
                    assert(buf.rem() =~= s.skip(1 + UConnPong::spec_width(s.skip(1))));
                }
                Ok(Packet::UConnPong(p))
            },
            Err(e) => Err(e),
        },
        PacketId::OConnReq1 => match OConnReq1::take(buf) {
            Ok(p) => {
                proof {
                    assert(buf.rem() =~= s.skip(18));
                }
                Ok(Packet::OConnReq1(p))
            },
            Err(e) => Err(e),
        },
        PacketId::OConnReply1 => match OConnReply1::take(buf) {
            Ok(p) => {
                proof {
                    assert(buf.rem() =~= s.skip(28));
                }
                Ok(Packet::OConnReply1(p))
            },
            Err(e) => Err(e),
        },
        PacketId::OConnReq2 => match OConnReq2::take(buf) {
            Ok(p) => {
                proof {
                    assert(buf.rem() =~= s.skip(1 + OConnReq2::spec_width(s.skip(1))));
                }
                Ok(Packet::OConnReq2(p))
            },
            Err(e) => Err(e),
        },
        PacketId::OConnReply2 => match OConnReply2::take(buf) {
            Ok(p) => {
                proof {
                    assert(buf.rem() =~= s.skip(1 + OConnReply2::spec_width(s.skip(1))));
                }
                Ok(Packet::OConnReply2(p))
            },
            Err(e) => Err(e),
        },
        PacketId::Incompatible => match Incompatible::take(buf) {
            Ok(p) => {
                proof {
                    assert(buf.rem() =~= s.skip(26));
                }
                Ok(Packet::Incompatible(p))
            },
            Err(e) => Err(e),
        },
        PacketId::FrameSet(_) => match FrameSet::take(buf) {
            Ok(p) => {
                proof {
                    assert(buf.rem() =~= s.skip(1 + FrameSet::spec_width(s.skip(1))));
                }
                Ok(Packet::FrameSet(p))
            },
            Err(e) => Err(e),
        },
        PacketId::Nack => match Nack::take(buf) {
            Ok(p) => {
                proof {
                    assert(buf.rem() =~= s.skip(1 + Nack::spec_width(s.skip(1))));
                }
                Ok(Packet::Nack(p))
            },
            Err(e) => Err(e),
        },
        PacketId::Ack => match Ack::take(buf) {
            Ok(p) => {
                proof {
                    assert(buf.rem() =~= s.skip(1 + Ack::spec_width(s.skip(1))));
                }
                Ok(Packet::Ack(p))
            },
            Err(e) => Err(e),
        },
    }
}

} // verus!
