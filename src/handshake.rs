//! The handshake that opens every peer connection.
use vstd::prelude::*;

verus! {

/// The fields of a handshake frame.
#[derive(Debug, Clone, PartialEq, Eq)]
pub struct Handshake {
    /// The protocol identifier.
    pub pstr: Vec<u8>,
    /// The content's info hash.
    pub info_hash: [u8; 20],
    /// The sender's peer id.
    pub peer_id: [u8; 20],
}

/// Why a handshake did not succeed.
#[derive(Debug, Clone, Copy, PartialEq, Eq, Structural)]
pub enum HandshakeError {
    /// Reading from or writing to the connection failed or timed out.
    IOFailure,
    /// The peer answered for another info hash.
    ProtocolMismatch,
    /// The protocol-string length is zero, or the frame is shorter than it declares.
    Truncated,
}

/// The bytes of the protocol identifier "BitTorrent protocol".
pub open spec fn protocol_name() -> Seq<u8> {
    seq![66u8, 105, 116, 84, 111, 114, 114, 101, 110, 116, 32, 112, 114, 111, 116, 111, 99, 111, 108]
}

/// The frame of a handshake: the identifier's length, the identifier, eight
/// reserved zero bytes, the info hash and the peer id.
pub open spec fn handshake_bytes(pstr: Seq<u8>, info_hash: Seq<u8>, peer_id: Seq<u8>) -> Seq<u8> {
    seq![pstr.len() as u8] + pstr + Seq::new(8, |i: int| 0u8) + info_hash + peer_id
}

/// The length that a frame's first byte declares for its identifier.
pub open spec fn declared_pstr_len(frame: Seq<u8>) -> int {
    frame[0] as int
}

/// Why `frame` holds no handshake, if it does not.
pub open spec fn handshake_error(frame: Seq<u8>) -> Option<HandshakeError> {
    if frame.len() == 0 || declared_pstr_len(frame) == 0 || frame.len() < 49 + declared_pstr_len(
        frame,
    ) {
        Some(HandshakeError::Truncated)
    } else {
        None
    }
}

/// The identifier that a handshake frame carries.
pub open spec fn frame_pstr(frame: Seq<u8>) -> Seq<u8> {
    frame.subrange(1, 1 + declared_pstr_len(frame))
}

/// The info hash that a handshake frame carries.
pub open spec fn frame_info_hash(frame: Seq<u8>) -> Seq<u8> {
    frame.subrange(9 + declared_pstr_len(frame), 29 + declared_pstr_len(frame))
}

/// The peer id that a handshake frame carries.
pub open spec fn frame_peer_id(frame: Seq<u8>) -> Seq<u8> {
    frame.subrange(29 + declared_pstr_len(frame), 49 + declared_pstr_len(frame))
}

/// Why a peer's answer to a handshake for `info_hash` is refused, if it is.
pub open spec fn response_error(info_hash: Seq<u8>, frame: Seq<u8>) -> Option<HandshakeError> {
    if handshake_error(frame) is Some {
        handshake_error(frame)
    } else if frame_info_hash(frame) != info_hash {
        Some(HandshakeError::ProtocolMismatch)
    } else {
        None
    }
}

/// The twenty bytes of `s` from `at` on.
fn copy_hash(s: &Vec<u8>, at: usize) -> (r: [u8; 20])
    requires
        at + 20 <= s@.len(),
    ensures
        r@ == s@.subrange(at as int, at + 20),
{
    let len = s.len();
    let mut r = [0u8; 20];
    let mut i: usize = 0;
    while i < 20
        invariant
            i <= 20,
            at + 20 <= s@.len(),
            s@.len() <= usize::MAX,
            r@.len() == 20,
            forall|k: int| 0 <= k < i ==> r@[k] == s@[at + k],
        decreases 20 - i,
    {
        r[i] = s[at + i];
        i = i + 1;
    }
    assert(r@ =~= s@.subrange(at as int, at + 20));
    r
}

/// Appends every byte of `s` to `out`.
fn push_all(out: &mut Vec<u8>, s: &[u8])
    ensures
        final(out)@ == old(out)@ + s@,
{
    let ghost head = out@;
    let mut i: usize = 0;
    while i < s.len()
        invariant
            i <= s@.len(),
            out@ == head + s@.take(i as int),
        decreases s@.len() - i,
    {
        out.push(s[i]);
        i = i + 1;
        assert(s@.take(i as int) == s@.take(i - 1) + seq![s@[i - 1]]);
    }
    assert(s@.take(s@.len() as int) == s@);
}

impl Handshake {
    /// The handshake for `info_hash` from the peer `peer_id`, with the
    /// identifier "BitTorrent protocol".
    pub fn new(info_hash: &[u8; 20], peer_id: &[u8; 20]) -> (r: Self)
        ensures
            r.pstr@ == protocol_name(),
            r.info_hash == *info_hash,
            r.peer_id == *peer_id,
    {
        let pstr: Vec<u8> = vec![66u8, 105, 116, 84, 111, 114, 114, 101, 110, 116, 32, 112, 114, 111, 116, 111, 99, 111, 108];
        assert(pstr@ =~= protocol_name());
        Self { pstr, info_hash: *info_hash, peer_id: *peer_id }
    }

    /// The handshake's frame.
    pub fn serialize(&self) -> (r: Vec<u8>)
        requires
            self.pstr@.len() <= 255,
        ensures
            r@ == handshake_bytes(self.pstr@, self.info_hash@, self.peer_id@),
    {
        let mut buf: Vec<u8> = Vec::new();
        buf.push(self.pstr.len() as u8);
        push_all(&mut buf, self.pstr.as_slice());
        let reserved = [0u8; 8];
        push_all(&mut buf, reserved.as_slice());
        push_all(&mut buf, self.info_hash.as_slice());
        push_all(&mut buf, self.peer_id.as_slice());
        assert(reserved@ =~= Seq::new(8, |i: int| 0u8));
        buf
    }
}

/// Decodes a handshake frame. Bytes past the frame's declared end are ignored.
pub fn parse(frame: &Vec<u8>) -> (r: Result<Handshake, HandshakeError>)
    ensures
        match r {
            Err(e) => handshake_error(frame@) == Some(e),
            Ok(h) => {
                &&& handshake_error(frame@) is None
                &&& h.pstr@ == frame_pstr(frame@)
                &&& h.info_hash@ == frame_info_hash(frame@)
                &&& h.peer_id@ == frame_peer_id(frame@)
            },
        },
{
    let len = frame.len();
    if len == 0 {
        return Err(HandshakeError::Truncated);
    }
    let n = frame[0] as usize;
    if n == 0 || len < 49 + n {
        return Err(HandshakeError::Truncated);
    }
    let mut pstr: Vec<u8> = Vec::new();
    let mut i: usize = 1;
    while i < 1 + n
        invariant
            1 <= i <= 1 + n,
            n <= 255,
            1 + n <= frame@.len(),
            pstr@ == frame@.subrange(1, i as int),
        decreases 1 + n - i,
    {
        pstr.push(frame[i]);
        i = i + 1;
        assert(frame@.subrange(1, i as int) == frame@.subrange(1, i - 1) + seq![frame@[i - 1]]);
    }
    let info_hash = copy_hash(frame, 9 + n);
    let peer_id = copy_hash(frame, 29 + n);
    Ok(Handshake { pstr, info_hash, peer_id })
}

/// Checks a peer's answer to a handshake for `info_hash` and returns the
/// peer's id.
pub fn check_response(info_hash: &[u8; 20], frame: &Vec<u8>) -> (r: Result<[u8; 20], HandshakeError>)
    ensures
        match r {
            Err(e) => response_error(info_hash@, frame@) == Some(e),
            Ok(id) => response_error(info_hash@, frame@) is None && id@ == frame_peer_id(frame@),
        },
{
    let h = match parse(frame) {
        Ok(h) => h,
        Err(e) => {
            return Err(e);
        },
    };
    let mut i: usize = 0;
    while i < 20
        invariant
            i <= 20,
            info_hash@.len() == 20,
            h.info_hash@.len() == 20,
            handshake_error(frame@) is None,
            h.info_hash@ == frame_info_hash(frame@),
            h.peer_id@ == frame_peer_id(frame@),
            forall|k: int| 0 <= k < i ==> h.info_hash@[k] == info_hash@[k],
        decreases 20 - i,
    {
        if h.info_hash[i] != info_hash[i] {
            assert(h.info_hash@[i as int] != info_hash@[i as int]);
            assert(frame_info_hash(frame@) != info_hash@);
            return Err(HandshakeError::ProtocolMismatch);
        }
        i = i + 1;
    }
    assert(h.info_hash@ =~= info_hash@);
    Ok(h.peer_id)
}

/// A serialized handshake reads back as itself, and a peer that answers with
/// it is accepted exactly by a handshake for the same info hash.
pub proof fn lemma_handshake_round_trip(
    pstr: Seq<u8>,
    info_hash: Seq<u8>,
    peer_id: Seq<u8>,
    other_hash: Seq<u8>,
)
    requires
        0 < pstr.len() <= 255,
        info_hash.len() == 20,
        peer_id.len() == 20,
    ensures
        handshake_error(handshake_bytes(pstr, info_hash, peer_id)) is None,
        frame_pstr(handshake_bytes(pstr, info_hash, peer_id)) == pstr,
        frame_info_hash(handshake_bytes(pstr, info_hash, peer_id)) == info_hash,
        frame_peer_id(handshake_bytes(pstr, info_hash, peer_id)) == peer_id,
        response_error(info_hash, handshake_bytes(pstr, info_hash, peer_id)) is None,
        other_hash != info_hash ==> response_error(other_hash, handshake_bytes(pstr, info_hash, peer_id))
            == Some(HandshakeError::ProtocolMismatch),
{
    let f = handshake_bytes(pstr, info_hash, peer_id);
    let n = pstr.len() as int;
    assert(f[0] == pstr.len() as u8);
    assert(declared_pstr_len(f) == n);
    assert(frame_pstr(f) =~= pstr);
    assert(frame_info_hash(f) =~= info_hash);
    assert(frame_peer_id(f) =~= peer_id);
}

} // verus!
