//! The bookkeeping of a download from many peers: the work set, the shared
//! queue of pieces still to fetch, and the assembly of verified pieces into
//! the final buffer.
use vstd::prelude::*;
use crate::bitfield::{has_piece, piece_bit};
use crate::message::{copy_block, write_block};
use crate::peers::Peer;
use crate::piece::{PieceResult, PieceWork};
use crate::torrent::{layout_ok, CustomTorrent};

verus! {

/// A download: the peers to ask, our peer id, and the descriptor's fields.
#[derive(Debug)]
pub struct P2pTorrent {
    pub peers: Vec<Peer>,
    pub peer_id: [u8; 20],
    pub info_hash: [u8; 20],
    pub piece_hashes: Vec<[u8; 20]>,
    pub piece_length: usize,
    pub length: usize,
    pub name: String,
}

/// The pieces that still wait for a peer, in the order they are handed out.
#[derive(Debug)]
pub struct WorkQueue {
    pub items: Vec<PieceWork>,
}

/// The final buffer as it fills, and which pieces are in it.
#[derive(Debug)]
pub struct Assembly {
    pub buf: Vec<u8>,
    pub done: Vec<bool>,
}

/// Why a download failed.
#[derive(Debug, Clone, PartialEq, Eq)]
pub enum DownloadError {
    /// No peer could deliver these pieces.
    Exhausted(Vec<usize>),
}

/// Where piece `index` begins in the content.
pub open spec fn piece_begin(index: int, piece_length: int) -> int {
    index * piece_length
}

/// Where piece `index` ends in the content: a full piece later, or at the
/// end of the content for the last one.
pub open spec fn piece_end(index: int, piece_length: int, length: int) -> int {
    if index * piece_length + piece_length > length {
        length
    } else {
        index * piece_length + piece_length
    }
}

/// The indices of the pieces not yet in place, in increasing order.
pub open spec fn missing_indices(done: Seq<bool>) -> Seq<usize>
    decreases done.len(),
{
    if done.len() == 0 {
        Seq::empty()
    } else {
        let rest = missing_indices(done.drop_last());
        if done.last() {
            rest
        } else {
            rest.push((done.len() - 1) as usize)
        }
    }
}

proof fn lemma_piece_in_range(index: int, n: int, piece_length: int, length: int)
    requires
        layout_ok(n, piece_length, length),
        0 <= index < n,
    ensures
        index * piece_length + piece_length <= n * piece_length,
        index * piece_length < length,
        0 <= index * piece_length,
{
    assert(index * piece_length + piece_length == (index + 1) * piece_length) by (nonlinear_arith);
    assert((index + 1) * piece_length <= n * piece_length) by (nonlinear_arith)
        requires
            index + 1 <= n,
            piece_length > 0,
    ;
    assert(index * piece_length <= (n - 1) * piece_length) by (nonlinear_arith)
        requires
            index <= n - 1,
            piece_length > 0,
    ;
    assert(0 <= index * piece_length) by (nonlinear_arith)
        requires
            index >= 0,
            piece_length > 0,
    ;
}

/// The indices of the pieces that `done` does not mark.
pub fn missing_pieces(done: &Vec<bool>) -> (r: Vec<usize>)
    ensures
        r@ == missing_indices(done@),
{
    let mut r: Vec<usize> = Vec::new();
    let mut i: usize = 0;
    while i < done.len()
        invariant
            i <= done@.len(),
            r@ == missing_indices(done@.take(i as int)),
        decreases done@.len() - i,
    {
        assert(done@.take(i + 1).drop_last() == done@.take(i as int));
        if !done[i] {
            r.push(i);
        }
        i = i + 1;
    }
    assert(done@.take(done@.len() as int) == done@);
    r
}

impl WorkQueue {
    /// A queue that hands out `items` in order.
    pub fn new(items: Vec<PieceWork>) -> (r: Self)
        ensures
            r.items@ == items@,
    {
        WorkQueue { items }
    }

    /// The number of pieces waiting.
    pub fn len(&self) -> (r: usize)
        ensures
            r == self.items@.len(),
    {
        self.items.len()
    }

    /// Takes out the first waiting piece that a peer with `bitfield` has.
    pub fn take_for(&mut self, bitfield: &Vec<u8>) -> (r: Option<PieceWork>)
        ensures
            match r {
                Some(w) => exists|k: int|
                    {
                        &&& 0 <= k < old(self).items@.len()
                        &&& old(self).items@[k] == w
                        &&& piece_bit(bitfield@, w.index as int)
                        &&& forall|j: int|
                            0 <= j < k ==> !piece_bit(bitfield@, #[trigger] old(self).items@[j].index as int)
                        &&& final(self).items@ == old(self).items@.remove(k)
                    },
                None => {
                    &&& forall|j: int|
                        0 <= j < old(self).items@.len() ==> !piece_bit(
                            bitfield@,
                            #[trigger] old(self).items@[j].index as int,
                        )
                    &&& final(self).items@ == old(self).items@
                },
            },
    {
        let mut k: usize = 0;
        while k < self.items.len()
            invariant
                k <= self.items@.len(),
                self.items@ == old(self).items@,
                forall|j: int|
                    0 <= j < k ==> !piece_bit(bitfield@, #[trigger] self.items@[j].index as int),
            decreases self.items@.len() - k,
        {
            if has_piece(bitfield, self.items[k].index) {
                let w = self.items.remove(k);
                return Some(w);
            }
            k = k + 1;
        }
        None
    }

    /// Returns a piece to the end of the queue, for another peer to fetch.
    pub fn put_back(&mut self, work: PieceWork)
        ensures
            final(self).items@ == old(self).items@.push(work),
    {
        self.items.push(work);
    }
}

impl P2pTorrent {
    /// Whether the pieces cover the content as the lengths say.
    pub open spec fn wf(&self) -> bool {
        layout_ok(self.piece_hashes@.len() as int, self.piece_length as int, self.length as int)
    }

    /// A download of the content that `custom_torrent` describes, from
    /// `peers`, as the peer `peer_id`.
    pub fn general_p2p_torrent(custom_torrent: &CustomTorrent, peers: Vec<Peer>, peer_id: [u8; 20]) -> (r: Self)
        requires
            custom_torrent.wf(),
        ensures
            r.wf(),
            r.peers@ == peers@,
            r.peer_id == peer_id,
            r.info_hash == custom_torrent.info_hash,
            r.piece_hashes@ == custom_torrent.piece_hashes@,
            r.piece_length == custom_torrent.piece_length,
            r.length == custom_torrent.length,
            r.name@ == custom_torrent.name@,
    {
        let mut piece_hashes: Vec<[u8; 20]> = Vec::new();
        let mut i: usize = 0;
        while i < custom_torrent.piece_hashes.len()
            invariant
                i <= custom_torrent.piece_hashes@.len(),
                piece_hashes@ == custom_torrent.piece_hashes@.take(i as int),
            decreases custom_torrent.piece_hashes@.len() - i,
        {
            piece_hashes.push(custom_torrent.piece_hashes[i]);
            i = i + 1;
            assert(custom_torrent.piece_hashes@.take(i as int) == custom_torrent.piece_hashes@.take(i - 1).push(custom_torrent.piece_hashes@[i - 1]));
        }
        assert(custom_torrent.piece_hashes@.take(custom_torrent.piece_hashes@.len() as int) == custom_torrent.piece_hashes@);
        P2pTorrent {
            peers,
            peer_id,
            info_hash: custom_torrent.info_hash,
            piece_hashes,
            piece_length: custom_torrent.piece_length,
            length: custom_torrent.length,
            name: custom_torrent.name.clone(),
        }
    }

    /// Where piece `index` begins and ends in the content.
    pub fn calculate_bounds_for_piece(&self, index: usize) -> (r: (usize, usize))
        requires
            self.wf(),
            index < self.piece_hashes@.len(),
        ensures
            r.0 as int == piece_begin(index as int, self.piece_length as int),
            r.1 as int == piece_end(index as int, self.piece_length as int, self.length as int),
            r.0 < r.1 <= self.length,
    {
        proof {
            lemma_piece_in_range(
                index as int,
                self.piece_hashes@.len() as int,
                self.piece_length as int,
                self.length as int,
            );
        }
        let begin = index * self.piece_length;
        let mut end = begin + self.piece_length;
        if end > self.length {
            end = self.length;
        }
        (begin, end)
    }

    /// The length of piece `index`.
    pub fn calculate_piece_size(&self, index: usize) -> (r: usize)
        requires
            self.wf(),
            index < self.piece_hashes@.len(),
        ensures
            r == piece_end(index as int, self.piece_length as int, self.length as int) - piece_begin(
                index as int,
                self.piece_length as int,
            ),
            r > 0,
    {
        let (begin, end) = self.calculate_bounds_for_piece(index);
        end - begin
    }

    /// One unit of work for each piece, in order of index.
    pub fn work_items(&self) -> (r: Vec<PieceWork>)
        requires
            self.wf(),
        ensures
            r@.len() == self.piece_hashes@.len(),
            forall|i: int|
                0 <= i < r@.len() ==> {
                    &&& (#[trigger] r@[i]).index == i
                    &&& r@[i].hash == self.piece_hashes@[i]
                    &&& r@[i].length as int == piece_end(i, self.piece_length as int, self.length as int)
                        - piece_begin(i, self.piece_length as int)
                },
    {
        let mut r: Vec<PieceWork> = Vec::new();
        let mut index: usize = 0;
        while index < self.piece_hashes.len()
            invariant
                self.wf(),
                index <= self.piece_hashes@.len(),
                r@.len() == index,
                forall|i: int|
                    0 <= i < index ==> {
                        &&& (#[trigger] r@[i]).index == i
                        &&& r@[i].hash == self.piece_hashes@[i]
                        &&& r@[i].length as int == piece_end(i, self.piece_length as int, self.length as int)
                            - piece_begin(i, self.piece_length as int)
                    },
            decreases self.piece_hashes@.len() - index,
        {
            let length = self.calculate_piece_size(index);
            r.push(PieceWork { index, hash: self.piece_hashes[index], length });
            index = index + 1;
        }
        r
    }

    /// An empty final buffer, with no piece in place.
    pub fn new_assembly(&self) -> (r: Assembly)
        ensures
            r.buf@ == Seq::new(self.length as nat, |i: int| 0u8),
            r.done@ == Seq::new(self.piece_hashes@.len(), |i: int| false),
    {
        let buf: Vec<u8> = vec![0u8; self.length];
        let done: Vec<bool> = vec![false; self.piece_hashes.len()];
        assert(buf@ =~= Seq::new(self.length as nat, |i: int| 0u8));
        assert(done@ =~= Seq::new(self.piece_hashes@.len(), |i: int| false));
        Assembly { buf, done }
    }

    /// Puts a verified piece in its place in the final buffer, once: a result
    /// for a piece already in place, for no piece of this download, or of the
    /// wrong length is refused and changes nothing.
    pub fn accept(&self, assembly: &mut Assembly, res: PieceResult) -> (r: bool)
        requires
            self.wf(),
            old(assembly).buf@.len() == self.length,
            old(assembly).done@.len() == self.piece_hashes@.len(),
        ensures
            r == (res.index < self.piece_hashes@.len() && !old(assembly).done@[res.index as int]
                && res.buffer@.len() == piece_end(res.index as int, self.piece_length as int, self.length as int)
                - piece_begin(res.index as int, self.piece_length as int)),
            r ==> final(assembly).buf@ == write_block(
                old(assembly).buf@,
                piece_begin(res.index as int, self.piece_length as int),
                res.buffer@,
            ) && final(assembly).done@ == old(assembly).done@.update(res.index as int, true),
            !r ==> *final(assembly) == *old(assembly),
            final(assembly).buf@.len() == self.length,
            final(assembly).done@.len() == self.piece_hashes@.len(),
    {
        if res.index >= self.piece_hashes.len() || assembly.done[res.index] {
            return false;
        }
        let (begin, end) = self.calculate_bounds_for_piece(res.index);
        if res.buffer.len() != end - begin {
            return false;
        }
        copy_block(&mut assembly.buf, begin, &res.buffer, 0);
        assert(res.buffer@.skip(0) == res.buffer@);
        assembly.done.set(res.index, true);
        true
    }

    /// The final buffer when every piece is in place; otherwise the pieces
    /// that are missing.
    pub fn finish(&self, assembly: Assembly) -> (r: Result<Vec<u8>, DownloadError>)
        ensures
            missing_indices(assembly.done@).len() == 0 ==> r is Ok && r->Ok_0@ == assembly.buf@,
            missing_indices(assembly.done@).len() != 0 ==> match r {
                Err(DownloadError::Exhausted(v)) => v@ == missing_indices(assembly.done@),
                Ok(_) => false,
            },
    {
        let missing = missing_pieces(&assembly.done);
        if missing.len() == 0 {
            Ok(assembly.buf)
        } else {
            Err(DownloadError::Exhausted(missing))
        }
    }
}

} // verus!
