use torrent_client::torrent::{check_layout, CustomTorrent, TorrentError};

const HASH_HEX: &str = "000102030405060708090a0B0c0d0e0f10111213";

#[test]
fn descriptor_fields_are_decoded() {
    let pieces = vec![vec![1u8; 20], vec![2u8; 20]];
    let t = CustomTorrent::general_custom_torrent(HASH_HEX, &pieces, 10, 15, "f".to_string(), None)
        .unwrap();
    let expect: Vec<u8> = (0..20).collect();
    assert_eq!(t.info_hash.to_vec(), expect);
    assert_eq!(t.piece_hashes, vec![[1u8; 20], [2u8; 20]]);
    assert_eq!((t.piece_length, t.length), (10, 15));
    assert_eq!(t.announce, "");
    assert_eq!(t.name, "f");
}

#[test]
fn bad_info_hash_is_refused() {
    let pieces = vec![vec![1u8; 20]];
    let r = CustomTorrent::general_custom_torrent("zz", &pieces, 10, 10, String::new(), None);
    assert_eq!(r.unwrap_err(), TorrentError::BadInfoHash);
    let r = CustomTorrent::general_custom_torrent(&HASH_HEX[..38], &pieces, 10, 10, String::new(), None);
    assert_eq!(r.unwrap_err(), TorrentError::BadInfoHash);
}

#[test]
fn bad_piece_hash_and_lengths_are_refused() {
    let r = CustomTorrent::general_custom_torrent(HASH_HEX, &vec![vec![1u8; 19]], 10, 10, String::new(), None);
    assert_eq!(r.unwrap_err(), TorrentError::BadPieceHash);
    let r = CustomTorrent::general_custom_torrent(HASH_HEX, &vec![vec![1u8; 20]], 0, 10, String::new(), None);
    assert_eq!(r.unwrap_err(), TorrentError::BadLength);
    let r = CustomTorrent::general_custom_torrent(HASH_HEX, &vec![vec![1u8; 20]], 10, 25, String::new(), None);
    assert_eq!(r.unwrap_err(), TorrentError::BadLayout);
    let r = CustomTorrent::general_custom_torrent(
        HASH_HEX,
        &vec![vec![1u8; 20]],
        10,
        10,
        String::new(),
        Some("http://t/announce".to_string()),
    );
    assert_eq!(r.unwrap().announce, "http://t/announce");
}

#[test]
fn tracker_query_encodes_fields() {
    let pieces = vec![vec![1u8; 20]; 4];
    let t = CustomTorrent::general_custom_torrent(HASH_HEX, &pieces, 10, 40, String::new(), None).unwrap();
    let mut peer_id = [b'a'; 20];
    peer_id[0] = b'-';
    peer_id[1] = b' ';
    peer_id[2] = 0xff;
    let q = t.build_tracker_query(&peer_id, 6881);
    let expect = format!(
        "info_hash=%00%01%02%03%04%05%06%07%08%09%0A%0B%0C%0D%0E%0F%10%11%12%13&peer_id=-+%FF{}&port=6881&uploaded=0&downloaded=0&compact=1&left=40",
        "a".repeat(17)
    );
    assert_eq!(q, expect);
}

#[test]
fn layout_check() {
    assert!(check_layout(4, 10, 40));
    assert!(check_layout(4, 10, 31));
    assert!(!check_layout(4, 10, 30));
    assert!(!check_layout(4, 10, 41));
    assert!(check_layout(0, 10, 0));
    assert!(!check_layout(0, 10, 1));
    assert!(!check_layout(1, 0, 0));
    assert!(!check_layout(usize::MAX, 2, 10));
}
