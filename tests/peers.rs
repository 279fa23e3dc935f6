use torrent_client::peers::{un_marshal, Peer};

#[test]
fn un_marshal_reads_compact_peers() {
    let peers = un_marshal(&[127, 0, 0, 1, 0x1a, 0xe1, 10, 1, 2, 3, 0, 80]);
    assert_eq!(
        peers,
        vec![Peer { ip: [127, 0, 0, 1], port: 6881 }, Peer { ip: [10, 1, 2, 3], port: 80 }]
    );
}

#[test]
fn un_marshal_rejects_ragged_input() {
    assert!(un_marshal(&[1, 2, 3, 4, 5]).is_empty());
    assert!(un_marshal(&[]).is_empty());
}
