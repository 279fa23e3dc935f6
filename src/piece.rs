//! The download of one piece from one peer: pipelined block requests, block
//! assembly, and the integrity check of the finished piece.
use vstd::prelude::*;
use sha1::Digest;
use crate::bitfield::with_piece;
use crate::message::{be_value, piece_fits, write_block, parse_have, parse_piece, Message, MessageId};
use crate::session::SessionState;

verus! {

/// The most block requests that may be outstanding at once.
pub const MAX_BACK_LOG: usize = 5;

/// The largest block that one request asks for.
pub const MAX_BLOCK_SIZE: usize = 16384;

/// One unit of work: a piece, its expected digest and its length.
#[derive(Debug, Clone, Copy, PartialEq, Eq)]
pub struct PieceWork {
    pub index: usize,
    pub hash: [u8; 20],
    pub length: usize,
}

/// A downloaded piece whose digest matched.
#[derive(Debug, Clone, PartialEq, Eq)]
pub struct PieceResult {
    pub index: usize,
    pub buffer: Vec<u8>,
}

/// Why a piece attempt failed.
#[derive(Debug, Clone, Copy, PartialEq, Eq, Structural)]
pub enum PieceError {
    /// The connection failed while the piece was requested or read.
    Io,
    /// The assembled piece does not have the expected digest.
    Integrity,
}

/// A block request: `length` bytes at offset `begin` of piece `index`.
#[derive(Debug, Clone, Copy, PartialEq, Eq, Structural)]
pub struct BlockRequest {
    pub index: usize,
    pub begin: usize,
    pub length: usize,
}

/// How far the download of one piece has come.
#[derive(Debug)]
pub struct PieceProgress {
    pub index: usize,
    pub length: usize,
    pub buf: Vec<u8>,
    pub downloaded: u64,
    pub requested: usize,
    pub backlog: usize,
    pub requests_sent: usize,
}

/// The number of blocks that cover `n` bytes.
pub open spec fn blocks_for(n: int) -> int {
    (n + MAX_BLOCK_SIZE - 1) / (MAX_BLOCK_SIZE as int)
}

/// The SHA-1 digest of `data`.
pub uninterp spec fn sha1_of(data: Seq<u8>) -> Seq<u8>;

/// Relies on sha1's `Sha1::digest`: the 20-byte SHA-1 digest of the data.
#[verifier::external_body]
fn piece_digest(data: &Vec<u8>) -> (r: [u8; 20])
    ensures
        r@ == sha1_of(data@),
{
    sha1::Sha1::digest(data.as_slice()).into()
}

impl PieceProgress {
    /// The bookkeeping invariant: a buffer of the piece's length, requests
    /// that run contiguously from the start in full blocks, and never more
    /// than `MAX_BACK_LOG` of them outstanding.
    pub open spec fn wf(&self) -> bool {
        &&& self.buf@.len() == self.length
        &&& self.length <= u32::MAX
        &&& self.index <= u32::MAX
        &&& self.requested <= self.length
        &&& (self.requested == self.length || self.requested % MAX_BLOCK_SIZE == 0)
        &&& self.requests_sent == blocks_for(self.requested as int)
        &&& self.backlog <= MAX_BACK_LOG
    }

    /// A fresh attempt at `work`: nothing requested, nothing received.
    pub fn new(work: &PieceWork) -> (r: Self)
        requires
            work.length <= u32::MAX,
            work.index <= u32::MAX,
        ensures
            r.wf(),
            r.index == work.index,
            r.length == work.length,
            r.downloaded == 0,
            r.requested == 0,
            r.backlog == 0,
            r.requests_sent == 0,
            forall|i: int| 0 <= i < r.buf@.len() ==> r.buf@[i] == 0,
    {
        let buf: Vec<u8> = vec![0u8; work.length];
        PieceProgress {
            index: work.index,
            length: work.length,
            buf,
            downloaded: 0,
            requested: 0,
            backlog: 0,
            requests_sent: 0,
        }
    }

    /// Whether all of the piece's bytes have arrived.
    pub fn is_complete(&self) -> (r: bool)
        requires
            self.wf(),
        ensures
            r == (self.downloaded >= self.length),
    {
        self.downloaded >= self.length as u64
    }

    /// The next block to request, if any: when the peer does not choke us,
    /// fewer than `MAX_BACK_LOG` requests are outstanding and bytes remain
    /// unrequested, the next block of at most `MAX_BLOCK_SIZE` bytes, which
    /// is then counted as requested and outstanding.
    pub fn next_request(&mut self, choked: bool) -> (r: Option<BlockRequest>)
        requires
            old(self).wf(),
        ensures
            final(self).wf(),
            final(self).index == old(self).index,
            final(self).length == old(self).length,
            final(self).buf@ == old(self).buf@,
            final(self).downloaded == old(self).downloaded,
            (!choked && old(self).backlog < MAX_BACK_LOG && old(self).requested < old(self).length)
                ==> {
                let size = if old(self).length - old(self).requested < MAX_BLOCK_SIZE {
                    old(self).length - old(self).requested
                } else {
                    MAX_BLOCK_SIZE as int
                };
                &&& r == Some(
                    BlockRequest {
                        index: old(self).index,
                        begin: old(self).requested,
                        length: size as usize,
                    },
                )
                &&& final(self).requested == old(self).requested + size
                &&& final(self).backlog == old(self).backlog + 1
                &&& final(self).requests_sent == old(self).requests_sent + 1
            },
            !(!choked && old(self).backlog < MAX_BACK_LOG && old(self).requested < old(self).length)
                ==> r is None && *final(self) == *old(self),
    {
        if choked || self.backlog >= MAX_BACK_LOG || self.requested >= self.length {
            return None;
        }
        let mut block_size = MAX_BLOCK_SIZE;
        if self.length - self.requested < block_size {
            block_size = self.length - self.requested;
        }
        let begin = self.requested;
        proof {
            let q = begin as int;
            assert(q % 16384 == 0);
            assert(blocks_for(q) == q / 16384);
            assert(blocks_for(q + block_size) == q / 16384 + 1);
        }
        self.backlog = self.backlog + 1;
        self.requested = self.requested + block_size;
        self.requests_sent = self.requests_sent + 1;
        Some(BlockRequest { index: self.index, begin, length: block_size })
    }

    /// Reacts to one message from the peer while the piece is incomplete:
    /// choke and unchoke set the session's choke flag, have marks the piece
    /// in the session's bitfield, and piece writes its block into the buffer,
    /// counts its bytes as downloaded and retires one outstanding request.
    /// Other messages change nothing.
    pub fn read_message(&mut self, session: &mut SessionState, msg: &Message)
        requires
            old(self).wf(),
            old(self).downloaded < old(self).length,
        ensures
            final(self).wf(),
            final(self).index == old(self).index,
            final(self).length == old(self).length,
            final(self).requested == old(self).requested,
            final(self).requests_sent == old(self).requests_sent,
            msg.id == MessageId::MsgPiece ==> {
                let fits = piece_fits(old(self).index as int, old(self).length as int, msg.id, msg.payload@);
                let n = if fits { msg.payload@.len() - 8 } else { 0 };
                &&& final(self).downloaded == old(self).downloaded + n
                &&& final(self).backlog == if old(self).backlog > 0 { old(self).backlog - 1 } else { 0 }
                &&& fits ==> final(self).buf@ == write_block(
                    old(self).buf@,
                    be_value(msg.payload@.skip(4)) as int,
                    msg.payload@.skip(8),
                )
                &&& !fits ==> final(self).buf@ == old(self).buf@
                &&& *final(session) == *old(session)
            },
            msg.id != MessageId::MsgPiece ==> {
                &&& final(self).downloaded == old(self).downloaded
                &&& final(self).backlog == old(self).backlog
                &&& final(self).buf@ == old(self).buf@
            },
            msg.id == MessageId::MsgUnchoke ==> !final(session).choked && final(session).bit_field@
                == old(session).bit_field@,
            msg.id == MessageId::MsgChoke ==> final(session).choked && final(session).bit_field@
                == old(session).bit_field@,
            msg.id == MessageId::MsgHave ==> final(session).choked == old(session).choked && (
            if msg.payload@.len() == 4 {
                final(session).bit_field@ == with_piece(
                    old(session).bit_field@,
                    be_value(msg.payload@) as int,
                )
            } else {
                final(session).bit_field@ == old(session).bit_field@
            }),
            msg.id != MessageId::MsgPiece && msg.id != MessageId::MsgUnchoke && msg.id
                != MessageId::MsgChoke && msg.id != MessageId::MsgHave ==> *final(session)
                == *old(session),
    {
        match msg.id {
            MessageId::MsgUnchoke => session.set_choked(false),
            MessageId::MsgChoke => session.set_choked(true),
            MessageId::MsgHave => {
                match parse_have(msg) {
                    Some(i) => session.mark_piece(i as usize),
                    None => {},
                }
            },
            MessageId::MsgPiece => {
                let n = parse_piece(self.index, &mut self.buf, msg);
                self.downloaded = self.downloaded + n as u64;
                if self.backlog > 0 {
                    self.backlog = self.backlog - 1;
                }
            },
            _ => {},
        }
    }

    /// Checks the finished piece against its expected digest, and hands over
    /// its buffer when they agree.
    pub fn finish(self, expected: &[u8; 20]) -> (r: Result<PieceResult, PieceError>)
        requires
            self.wf(),
        ensures
            sha1_of(self.buf@) == expected@ ==> r is Ok && r->Ok_0.index == self.index
                && r->Ok_0.buffer@ == self.buf@,
            sha1_of(self.buf@) != expected@ ==> r == Err::<PieceResult, PieceError>(
                PieceError::Integrity,
            ),
    {
        let digest = piece_digest(&self.buf);
        accept_piece(self.index, self.buf, expected, &digest)
    }
}

/// Over the whole download of a piece, at most `MAX_BACK_LOG` requests are
/// outstanding, no more than ceil(length / `MAX_BLOCK_SIZE`) requests are
/// sent, and once every byte is requested exactly that many have been sent.
pub proof fn lemma_request_count(p: PieceProgress)
    requires
        p.wf(),
    ensures
        p.backlog <= MAX_BACK_LOG,
        p.requests_sent <= blocks_for(p.length as int),
        p.requested == p.length ==> p.requests_sent == blocks_for(p.length as int),
{
    let r = p.requested as int;
    let l = p.length as int;
    assert((r + 16383) / 16384 <= (l + 16383) / 16384) by (nonlinear_arith)
        requires
            r <= l,
            0 <= r,
    ;
}

/// Whether two digests are equal.
pub fn same_digest(a: &[u8; 20], b: &[u8; 20]) -> (r: bool)
    ensures
        r == (a@ == b@),
{
    let mut i: usize = 0;
    while i < 20
        invariant
            i <= 20,
            a@.len() == 20,
            b@.len() == 20,
            forall|k: int| 0 <= k < i ==> a@[k] == b@[k],
        decreases 20 - i,
    {
        if a[i] != b[i] {
            assert(a@[i as int] != b@[i as int]);
            return false;
        }
        i = i + 1;
    }
    assert(a@ =~= b@);
    true
}

/// Accepts the piece `index` assembled in `buf` when its digest `digest`
/// equals the expected one; an integrity error otherwise.
pub fn accept_piece(index: usize, buf: Vec<u8>, expected: &[u8; 20], digest: &[u8; 20]) -> (r: Result<
    PieceResult,
    PieceError,
>)
    ensures
        digest@ == expected@ ==> r is Ok && r->Ok_0.index == index && r->Ok_0.buffer@ == buf@,
        digest@ != expected@ ==> r == Err::<PieceResult, PieceError>(PieceError::Integrity),
{
    if same_digest(digest, expected) {
        Ok(PieceResult { index, buffer: buf })
    } else {
        Err(PieceError::Integrity)
    }
}

} // verus!
