//! Bitfields: one bit per piece, most significant bit of each byte first.
use vstd::prelude::*;

verus! {

/// One bit per piece, most significant bit of each byte first.
pub type Bitfield = Vec<u8>;

/// The byte that holds bit `index`.
pub open spec fn byte_of(index: int) -> int {
    index / 8
}

/// The mask that selects bit `index` inside its byte.
pub open spec fn mask_of(index: int) -> u8 {
    (1u8 << ((7 - index % 8) as u8)) as u8
}

/// Whether the bitfield `bf` records piece `index`; false outside the bitfield.
pub open spec fn piece_bit(bf: Seq<u8>, index: int) -> bool {
    &&& 0 <= index
    &&& byte_of(index) < bf.len()
    &&& bf[byte_of(index)] & mask_of(index) != 0
}

/// `bf` with the bit of piece `index` set; `bf` itself when `index` is out of range.
pub open spec fn with_piece(bf: Seq<u8>, index: int) -> Seq<u8> {
    if 0 <= index && byte_of(index) < bf.len() {
        bf.update(byte_of(index), bf[byte_of(index)] | mask_of(index))
    } else {
        bf
    }
}

proof fn lemma_bit_shift(b: u8, k: u8)
    requires
        k < 8,
    ensures
        ((b >> k) & 1u8 != 0) == (b & ((1u8 << k) as u8) != 0),
{
    assert(((b >> k) & 1u8 != 0) == (b & ((1u8 << k) as u8) != 0)) by (bit_vector)
        requires
            k < 8,
    ;
}

/// Whether the peer whose bitfield is `bitfield` has piece `index`.
pub fn has_piece(bitfield: &Bitfield, index: usize) -> (r: bool)
    ensures
        r == piece_bit(bitfield@, index as int),
{
    let byte_index = index / 8;
    let offset = index % 8;
    if byte_index >= bitfield.len() {
        return false;
    }
    let k = (7 - offset) as u8;
    proof {
        lemma_bit_shift(bitfield@[byte_index as int], k);
    }
    (bitfield[byte_index] >> k) & 1 != 0
}

/// Records piece `index` in `bitfield`; does nothing when `index` is out of range.
pub fn set_piece(bitfield: &mut Bitfield, index: usize)
    ensures
        final(bitfield)@ == with_piece(old(bitfield)@, index as int),
{
    let byte_index = index / 8;
    let offset = index % 8;
    if byte_index >= bitfield.len() {
        return;
    }
    let k = (7 - offset) as u8;
    let b = bitfield[byte_index] | (1u8 << k);
    bitfield.set(byte_index, b);
}

proof fn lemma_mask_bits(b: u8, k: u8, j: u8)
    requires
        k < 8,
        j < 8,
    ensures
        (b | ((1u8 << k) as u8)) & ((1u8 << k) as u8) != 0,
        j != k ==> (((b | ((1u8 << k) as u8)) & ((1u8 << j) as u8) != 0) == (b & ((1u8 << j) as u8)
            != 0)),
{
    assert((b | ((1u8 << k) as u8)) & ((1u8 << k) as u8) != 0) by (bit_vector)
        requires
            k < 8,
    ;
    assert(j != k ==> (((b | ((1u8 << k) as u8)) & ((1u8 << j) as u8) != 0) == (b & ((1u8
        << j) as u8) != 0))) by (bit_vector)
        requires
            k < 8,
            j < 8,
    ;
}

/// Setting a piece makes it present when it lies inside the bitfield, and
/// leaves the bit of every other piece as it was.
pub proof fn lemma_set_piece_has_piece(bf: Seq<u8>, index: int, other: int)
    requires
        0 <= index,
    ensures
        byte_of(index) < bf.len() ==> piece_bit(with_piece(bf, index), index),
        other != index ==> piece_bit(with_piece(bf, index), other) == piece_bit(bf, other),
        with_piece(bf, index).len() == bf.len(),
{
    if byte_of(index) < bf.len() {
        let b = bf[byte_of(index)];
        let k = (7 - index % 8) as u8;
        if 0 <= other && byte_of(other) == byte_of(index) {
            let j = (7 - other % 8) as u8;
            lemma_mask_bits(b, k, j);
            if other != index {
                assert(j != k);
            }
        } else {
            lemma_mask_bits(b, k, k);
        }
    }
}

} // verus!
