//! Peer addresses in the compact form that trackers hand out.
use vstd::prelude::*;

verus! {

/// The address of one peer: an IPv4 address and a port.
#[derive(Debug, Clone, Copy, PartialEq, Eq)]
pub struct Peer {
    /// The four octets of the IPv4 address, most significant first.
    pub ip: [u8; 4],
    pub port: u16,
}

/// Whether `p` is the peer that the six bytes of `bin` from `at` on describe:
/// four address octets, then the port, big-endian.
pub open spec fn peer_at(bin: Seq<u8>, at: int, p: Peer) -> bool {
    &&& p.ip@ == bin.subrange(at, at + 4)
    &&& p.port as int == bin[at + 4] as int * 256 + bin[at + 5] as int
}

/// Decodes a list of compact peer addresses, six bytes each. A list whose
/// length is not a multiple of six gives no peers.
pub fn un_marshal(peers_bin: &[u8]) -> (r: Vec<Peer>)
    ensures
        peers_bin@.len() % 6 != 0 ==> r@.len() == 0,
        peers_bin@.len() % 6 == 0 ==> {
            &&& r@.len() == peers_bin@.len() / 6
            &&& forall|i: int| 0 <= i < r@.len() ==> peer_at(peers_bin@, 6 * i, #[trigger] r@[i])
        },
{
    let len = peers_bin.len();
    let num_peers = len / 6;
    let mut peers: Vec<Peer> = Vec::new();
    if len % 6 != 0 {
        return peers;
    }
    let mut i: usize = 0;
    while i < num_peers
        invariant
            len == peers_bin@.len(),
            num_peers == len / 6,
            len % 6 == 0,
            i <= num_peers,
            peers@.len() == i,
            forall|k: int| 0 <= k < i ==> peer_at(peers_bin@, 6 * k, #[trigger] peers@[k]),
        decreases num_peers - i,
    {
        let offset = i * 6;
        let ip = [peers_bin[offset], peers_bin[offset + 1], peers_bin[offset + 2], peers_bin[offset + 3]];
        let port = (peers_bin[offset + 4] as u16) * 256 + peers_bin[offset + 5] as u16;
        assert(ip@ =~= peers_bin@.subrange(offset as int, offset + 4));
        peers.push(Peer { ip, port });
        i = i + 1;
    }
    peers
}

} // verus!
