use torrent_client::bitfield::{has_piece, set_piece};

#[test]
fn has_piece_reads_msb_first() {
    let bf = vec![0b1010_0000u8, 0b0000_0001];
    assert!(has_piece(&bf, 0));
    assert!(!has_piece(&bf, 1));
    assert!(has_piece(&bf, 2));
    assert!(!has_piece(&bf, 7));
    assert!(has_piece(&bf, 15));
    assert!(!has_piece(&bf, 14));
}

#[test]
fn has_piece_out_of_range_is_false() {
    let bf = vec![0xffu8];
    assert!(!has_piece(&bf, 8));
    assert!(!has_piece(&bf, 1000));
    assert!(!has_piece(&Vec::new(), 0));
}

#[test]
fn set_piece_then_has_piece() {
    for i in 0..24usize {
        let mut bf = vec![0u8; 3];
        set_piece(&mut bf, i);
        for j in 0..24usize {
            assert_eq!(has_piece(&bf, j), i == j);
        }
    }
}

#[test]
fn set_piece_keeps_other_bits() {
    let mut bf = vec![0b0101_0101u8, 0xf0];
    set_piece(&mut bf, 4);
    assert_eq!(bf, vec![0b0101_1101u8, 0xf0]);
    set_piece(&mut bf, 15);
    assert_eq!(bf, vec![0b0101_1101u8, 0xf1]);
}

#[test]
fn set_piece_out_of_range_is_noop() {
    let mut bf = vec![0u8; 2];
    set_piece(&mut bf, 16);
    set_piece(&mut bf, 99);
    assert_eq!(bf, vec![0u8, 0]);
}
