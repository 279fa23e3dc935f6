use sha1::Digest;
use torrent_client::message::{Message, MessageId};
use torrent_client::piece::{
    accept_piece, BlockRequest, PieceError, PieceProgress, PieceWork, MAX_BACK_LOG, MAX_BLOCK_SIZE,
};
use torrent_client::session::SessionState;

fn sha1_of(data: &[u8]) -> [u8; 20] {
    sha1::Sha1::digest(data).into()
}

fn piece_message(index: u32, begin: u32, block: &[u8]) -> Message {
    let mut payload = index.to_be_bytes().to_vec();
    payload.extend_from_slice(&begin.to_be_bytes());
    payload.extend_from_slice(block);
    Message::new(MessageId::MsgPiece, payload)
}

/// Runs one piece against a peer that unchokes first, then answers the
/// oldest outstanding request with each message.
fn run_piece(work: &PieceWork, content: &[u8]) -> (Result<Vec<u8>, PieceError>, Vec<BlockRequest>, usize) {
    let mut session = SessionState::new(vec![0xff]);
    let mut p = PieceProgress::new(work);
    let mut sent = Vec::new();
    let mut outstanding: Vec<BlockRequest> = Vec::new();
    let mut max_backlog = 0;
    while !p.is_complete() {
        if let Some(req) = p.next_request(session.choked) {
            sent.push(req);
            outstanding.push(req);
        }
        max_backlog = max_backlog.max(p.backlog);
        let msg = if outstanding.is_empty() {
            Message::new(MessageId::MsgUnchoke, vec![])
        } else {
            let r = outstanding.remove(0);
            piece_message(r.index as u32, r.begin as u32, &content[r.begin..r.begin + r.length])
        };
        p.read_message(&mut session, &msg);
    }
    (p.finish(&work.hash).map(|r| r.buffer), sent, max_backlog)
}

#[test]
fn piece_of_40000_bytes_takes_three_requests() {
    let content: Vec<u8> = (0..40000u32).map(|i| (i % 251) as u8).collect();
    let work = PieceWork { index: 2, hash: sha1_of(&content), length: 40000 };
    let (res, sent, max_backlog) = run_piece(&work, &content);
    assert_eq!(res, Ok(content));
    assert_eq!(
        sent,
        vec![
            BlockRequest { index: 2, begin: 0, length: 16384 },
            BlockRequest { index: 2, begin: 16384, length: 16384 },
            BlockRequest { index: 2, begin: 32768, length: 7232 },
        ]
    );
    assert!(max_backlog <= MAX_BACK_LOG);
    assert_eq!(MAX_BLOCK_SIZE, 16384);
}

#[test]
fn digest_mismatch_is_integrity_error() {
    let content = vec![3u8; 40000];
    let work = PieceWork { index: 0, hash: [0u8; 20], length: 40000 };
    let (res, sent, _) = run_piece(&work, &content);
    assert_eq!(res, Err(PieceError::Integrity));
    assert_eq!(sent.len(), 3);
}

#[test]
fn backlog_never_exceeds_limit() {
    let work = PieceWork { index: 0, hash: [0u8; 20], length: 200000 };
    let mut p = PieceProgress::new(&work);
    let mut n = 0;
    while let Some(_) = p.next_request(false) {
        n += 1;
    }
    assert_eq!(n, MAX_BACK_LOG);
    assert_eq!(p.backlog, MAX_BACK_LOG);
    assert_eq!(p.requested, 5 * 16384);
}

#[test]
fn choked_peer_gets_no_requests() {
    let work = PieceWork { index: 0, hash: [0u8; 20], length: 100 };
    let mut p = PieceProgress::new(&work);
    assert_eq!(p.next_request(true), None);
    assert_eq!(p.requested, 0);
}

#[test]
fn control_messages_update_session() {
    let work = PieceWork { index: 0, hash: [0u8; 20], length: 100 };
    let mut p = PieceProgress::new(&work);
    let mut session = SessionState::new(vec![0, 0]);
    assert!(session.choked);
    p.read_message(&mut session, &Message::new(MessageId::MsgUnchoke, vec![]));
    assert!(!session.choked);
    p.read_message(&mut session, &Message::new(MessageId::MsgHave, vec![0, 0, 0, 9]));
    assert_eq!(session.bit_field, vec![0, 0b0100_0000]);
    p.read_message(&mut session, &Message::new(MessageId::MsgChoke, vec![]));
    assert!(session.choked);
    p.read_message(&mut session, &Message::new(MessageId::MsgInterested, vec![]));
    assert!(session.choked);
    assert_eq!(p.downloaded, 0);
}

#[test]
fn piece_message_counts_bytes_and_retires_request() {
    let work = PieceWork { index: 1, hash: [0u8; 20], length: 100 };
    let mut p = PieceProgress::new(&work);
    let mut session = SessionState::new(vec![]);
    assert!(p.next_request(false).is_some());
    p.read_message(&mut session, &piece_message(1, 0, &[5u8; 60]));
    assert_eq!(p.downloaded, 60);
    assert_eq!(p.backlog, 0);
    assert_eq!(&p.buf[..60], &[5u8; 60][..]);
}

#[test]
fn accept_piece_compares_digests() {
    let r = accept_piece(4, vec![1, 2], &[9u8; 20], &[9u8; 20]).unwrap();
    assert_eq!((r.index, r.buffer), (4, vec![1, 2]));
    assert_eq!(accept_piece(4, vec![1, 2], &[9u8; 20], &[8u8; 20]), Err(PieceError::Integrity));
}
