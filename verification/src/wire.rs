//! What the relay and the server read of a packet without decrypting it.

use crate::relay::session::SessionId;
use vstd::prelude::*;

verus! {

/// Kinds of packets.
#[derive(Clone, Copy, Debug, PartialEq, Eq, Structural)]
pub enum MessageType {
    HandshakeInit,
    HandshakeResponse,
    EncryptedHandshakeInit,
    HandshakeFragment,
    CookieRequest,
    CookieReply,
    Data,
    Keepalive,
    Rekey,
    Control,
    /// Any other kind that the protocol knows.
    Other,
}

/// The parts of a decoded packet header that routing looks at.
#[derive(Clone, Copy, Debug, PartialEq, Eq, Structural)]
pub struct PacketHeader {
    pub msg_type: MessageType,
    pub session_id: SessionId,
}

impl MessageType {
    /// Kinds that a client sends before it has a session.
    pub open spec fn opens_handshake(self) -> bool {
        ||| self is HandshakeInit
        ||| self is EncryptedHandshakeInit
        ||| self is HandshakeFragment
        ||| self is CookieReply
    }

    /// Kinds that belong to a handshake, in either direction.
    pub open spec fn part_of_handshake(self) -> bool {
        self.opens_handshake() || self is HandshakeResponse || self is CookieRequest
    }

    /// Whether a client sends this kind before it has a session.
    pub fn is_handshake_opening(&self) -> (b: bool)
        ensures
            b == self.opens_handshake(),
    {
        match self {
            MessageType::HandshakeInit => true,
            MessageType::EncryptedHandshakeInit => true,
            MessageType::HandshakeFragment => true,
            MessageType::CookieReply => true,
            _ => false,
        }
    }

    /// Whether this kind belongs to a handshake.
    pub fn is_handshake(&self) -> (b: bool)
        ensures
            b == self.part_of_handshake(),
    {
        match self {
            MessageType::HandshakeResponse => true,
            MessageType::CookieRequest => true,
            _ => self.is_handshake_opening(),
        }
    }
}

/// Which kinds are which: what a client sends before it has a session, what the upstream answers,
/// and what belongs to sessions alone. No kind is two of these.
pub proof fn law_kinds_are_told_apart(m: MessageType)
    ensures
        m is Data || m is Keepalive || m is Rekey || m is Control || m is Other <==>
            !m.part_of_handshake(),
        m is HandshakeResponse || m is CookieRequest <==> m.part_of_handshake()
            && !m.opens_handshake(),
        m is HandshakeInit || m is EncryptedHandshakeInit || m is HandshakeFragment || m
            is CookieReply <==> m.opens_handshake(),
{
}

} // verus!
