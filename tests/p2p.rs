use sha1::Digest;
use torrent_client::message::{Message, MessageId};
use torrent_client::p2p::{missing_pieces, DownloadError, P2pTorrent, WorkQueue};
use torrent_client::peers::Peer;
use torrent_client::piece::{PieceError, PieceProgress, PieceResult, PieceWork};
use torrent_client::session::SessionState;
use torrent_client::torrent::CustomTorrent;

fn sha1_of(data: &[u8]) -> [u8; 20] {
    sha1::Sha1::digest(data).into()
}

fn hex_of(b: &[u8]) -> String {
    b.iter().map(|x| format!("{:02x}", x)).collect()
}

fn torrent(contents: &[Vec<u8>], piece_length: i64, length: i64) -> P2pTorrent {
    let hashes: Vec<Vec<u8>> = contents.iter().map(|c| sha1_of(c).to_vec()).collect();
    let t = CustomTorrent::general_custom_torrent(&hex_of(&[7u8; 20]), &hashes, piece_length, length, "x".to_string(), None)
        .unwrap();
    P2pTorrent::general_p2p_torrent(&t, vec![Peer { ip: [127, 0, 0, 1], port: 1 }], [1u8; 20])
}

/// A mock peer: it holds `content` for the pieces its bitfield shows, and
/// drops the connection after delivering `fail_after` blocks, if given.
struct MockPeer {
    bitfield: Vec<u8>,
    content: Vec<Vec<u8>>,
    fail_after: Option<usize>,
}

fn piece_message(index: u32, begin: u32, block: &[u8]) -> Message {
    let mut payload = index.to_be_bytes().to_vec();
    payload.extend_from_slice(&begin.to_be_bytes());
    payload.extend_from_slice(block);
    Message::new(MessageId::MsgPiece, payload)
}

/// One worker: pulls pieces its peer has until the queue has none, requeues
/// the piece in hand when the connection drops, and then stops.
fn run_worker(queue: &mut WorkQueue, peer: &MockPeer, out: &mut Vec<PieceResult>) {
    let mut session = SessionState::new(peer.bitfield.clone());
    session.set_choked(false);
    let mut delivered = 0;
    while let Some(work) = queue.take_for(&session.bit_field) {
        let mut p = PieceProgress::new(&work);
        let mut outstanding = Vec::new();
        let mut failed = false;
        while !p.is_complete() {
            if let Some(r) = p.next_request(session.choked) {
                outstanding.push(r);
            }
            if peer.fail_after == Some(delivered) {
                failed = true;
                break;
            }
            let r = outstanding.remove(0);
            let data = &peer.content[r.index][r.begin..r.begin + r.length];
            p.read_message(&mut session, &piece_message(r.index as u32, r.begin as u32, data));
            delivered += 1;
        }
        if failed {
            queue.put_back(work);
            return;
        }
        match p.finish(&work.hash) {
            Ok(res) => out.push(res),
            Err(PieceError::Integrity) | Err(PieceError::Io) => {
                queue.put_back(work);
                return;
            }
        }
    }
}

fn contents() -> Vec<Vec<u8>> {
    (0..4u8).map(|i| (0..10u8).map(|j| i * 10 + j).collect()).collect()
}

fn assemble(t: &P2pTorrent, results: Vec<PieceResult>) -> Result<Vec<u8>, DownloadError> {
    let mut assembly = t.new_assembly();
    for r in results {
        assert!(t.accept(&mut assembly, r));
    }
    t.finish(assembly)
}

#[test]
fn bounds_of_pieces() {
    let t = torrent(&[vec![0u8; 4], vec![0u8; 4], vec![0u8; 2]], 4, 10);
    assert_eq!(t.calculate_bounds_for_piece(0), (0, 4));
    assert_eq!(t.calculate_bounds_for_piece(1), (4, 8));
    assert_eq!(t.calculate_bounds_for_piece(2), (8, 10));
    assert_eq!(t.calculate_piece_size(2), 2);
    let w = t.work_items();
    assert_eq!(w.iter().map(|w| (w.index, w.length)).collect::<Vec<_>>(), vec![(0, 4), (1, 4), (2, 2)]);
}

#[test]
fn two_peers_with_disjoint_halves_download_everything() {
    let c = contents();
    let t = torrent(&c, 10, 40);
    let mut queue = WorkQueue::new(t.work_items());
    let a = MockPeer { bitfield: vec![0b1100_0000], content: c.clone(), fail_after: None };
    let b = MockPeer { bitfield: vec![0b0011_0000], content: c.clone(), fail_after: None };
    let mut results = Vec::new();
    run_worker(&mut queue, &a, &mut results);
    run_worker(&mut queue, &b, &mut results);
    assert_eq!(queue.len(), 0);
    let mut indices: Vec<usize> = results.iter().map(|r| r.index).collect();
    indices.sort();
    assert_eq!(indices, vec![0, 1, 2, 3]);
    let buf = assemble(&t, results).unwrap();
    assert_eq!(buf, c.concat());
}

#[test]
fn piece_is_accepted_only_once() {
    let c = contents();
    let t = torrent(&c, 10, 40);
    let mut assembly = t.new_assembly();
    assert!(t.accept(&mut assembly, PieceResult { index: 1, buffer: c[1].clone() }));
    assert!(!t.accept(&mut assembly, PieceResult { index: 1, buffer: vec![0u8; 10] }));
    assert!(!t.accept(&mut assembly, PieceResult { index: 9, buffer: vec![0u8; 10] }));
    assert!(!t.accept(&mut assembly, PieceResult { index: 2, buffer: vec![0u8; 3] }));
    assert_eq!(&assembly.buf[10..20], &c[1][..]);
    assert_eq!(missing_pieces(&assembly.done), vec![0, 2, 3]);
}

#[test]
fn dropped_peer_piece_is_finished_by_another() {
    let c = contents();
    let t = torrent(&c, 10, 40);
    let mut queue = WorkQueue::new(t.work_items());
    let flaky = MockPeer { bitfield: vec![0b1111_0000], content: c.clone(), fail_after: Some(1) };
    let good = MockPeer { bitfield: vec![0b1111_0000], content: c.clone(), fail_after: None };
    let mut results = Vec::new();
    run_worker(&mut queue, &flaky, &mut results);
    assert_eq!(results.len(), 1);
    assert_eq!(queue.len(), 3);
    run_worker(&mut queue, &good, &mut results);
    assert_eq!(assemble(&t, results).unwrap(), c.concat());
}

#[test]
fn piece_nobody_else_has_is_reported() {
    let c = contents();
    let t = torrent(&c, 10, 40);
    let mut queue = WorkQueue::new(t.work_items());
    let flaky = MockPeer { bitfield: vec![0b0010_0000], content: c.clone(), fail_after: Some(0) };
    let other = MockPeer { bitfield: vec![0b1101_0000], content: c.clone(), fail_after: None };
    let mut results = Vec::new();
    run_worker(&mut queue, &flaky, &mut results);
    run_worker(&mut queue, &other, &mut results);
    assert_eq!(queue.len(), 1);
    assert_eq!(assemble(&t, results), Err(DownloadError::Exhausted(vec![2])));
}

#[test]
fn corrupt_piece_is_requeued() {
    let c = contents();
    let t = torrent(&c, 10, 40);
    let mut queue = WorkQueue::new(t.work_items());
    let mut bad = c.clone();
    bad[0][3] ^= 1;
    let liar = MockPeer { bitfield: vec![0b1000_0000], content: bad, fail_after: None };
    let mut results = Vec::new();
    run_worker(&mut queue, &liar, &mut results);
    assert!(results.is_empty());
    assert_eq!(queue.len(), 4);
    assert_eq!(queue.items.last().map(|w: &PieceWork| w.index), Some(0));
}
