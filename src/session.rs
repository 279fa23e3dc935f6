//! The state that one peer session keeps beside its connection.
use vstd::prelude::*;
use crate::bitfield::{set_piece, with_piece};
use crate::handshake::HandshakeError;
use crate::message::{Message, MessageId};

verus! {

/// Whether the peer chokes us, and which pieces it says it has.
#[derive(Debug, Clone)]
pub struct SessionState {
    pub choked: bool,
    pub bit_field: Vec<u8>,
}

/// Why a peer session could not be opened.
#[derive(Debug, Clone, Copy, PartialEq, Eq, Structural)]
pub enum SessionInitError {
    /// The connection could not be opened.
    Connect,
    /// The handshake failed.
    Handshake(HandshakeError),
    /// The first message was missing or was not a bitfield.
    NoBitfield,
}

/// The bitfield that a session's first message carries: its payload when it
/// is a bitfield message, an error when it is missing or of another kind.
pub fn recv_bitfield(msg: Option<Message>) -> (r: Result<Vec<u8>, SessionInitError>)
    ensures
        match msg {
            Some(m) => if m.id == MessageId::MsgBitfield {
                r is Ok && r->Ok_0@ == m.payload@
            } else {
                r == Err::<Vec<u8>, SessionInitError>(SessionInitError::NoBitfield)
            },
            None => r == Err::<Vec<u8>, SessionInitError>(SessionInitError::NoBitfield),
        },
{
    match msg {
        Some(m) => {
            if m.id != MessageId::MsgBitfield {
                return Err(SessionInitError::NoBitfield);
            }
            Ok(m.payload)
        },
        None => Err(SessionInitError::NoBitfield),
    }
}

impl SessionState {
    /// The state of a freshly opened session: choked, with the peer's bitfield.
    pub fn new(bit_field: Vec<u8>) -> (r: Self)
        ensures
            r.choked,
            r.bit_field@ == bit_field@,
    {
        SessionState { choked: true, bit_field }
    }

    /// Records whether the peer chokes us.
    pub fn set_choked(&mut self, choked: bool)
        ensures
            final(self).choked == choked,
            final(self).bit_field@ == old(self).bit_field@,
    {
        self.choked = choked;
    }

    /// Records that the peer has piece `index`.
    pub fn mark_piece(&mut self, index: usize)
        ensures
            final(self).choked == old(self).choked,
            final(self).bit_field@ == with_piece(old(self).bit_field@, index as int),
    {
        set_piece(&mut self.bit_field, index);
    }
}

} // verus!
