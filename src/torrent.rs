//! The fields of a content descriptor that a download needs.
use vstd::prelude::*;
use vstd::string::StringExecFns;

verus! {

#[verifier::external_type_specification]
#[verifier::external_body]
pub struct ExFromHexError(hex::FromHexError);

/// Whether `c` is a hexadecimal digit.
pub open spec fn is_hex_digit(c: char) -> bool {
    ('0' <= c && c <= '9') || ('a' <= c && c <= 'f') || ('A' <= c && c <= 'F')
}

/// The value of the hexadecimal digit `c`.
pub open spec fn hex_value(c: char) -> int {
    if '0' <= c && c <= '9' {
        c as int - '0' as int
    } else if 'a' <= c && c <= 'f' {
        c as int - 'a' as int + 10
    } else {
        c as int - 'A' as int + 10
    }
}

/// Whether `s` is the hexadecimal text of the bytes `out`, two digits per
/// byte, high digit first.
pub open spec fn hex_text_of(s: Seq<char>, out: Seq<u8>) -> bool {
    &&& s.len() == 2 * out.len()
    &&& forall|i: int|
        0 <= i < out.len() ==> #[trigger] out[i] as int == 16 * hex_value(s[2 * i]) + hex_value(
            s[2 * i + 1],
        )
}

/// Relies on hex::decode_to_slice: it succeeds on exactly the strings of 40
/// hexadecimal digits, and then gives the 20 bytes they spell.
#[verifier::external_body]
fn decode_hash_hex(s: &str) -> (r: Result<[u8; 20], hex::FromHexError>)
    ensures
        r is Ok <==> (s@.len() == 40 && forall|i: int| 0 <= i < 40 ==> is_hex_digit(#[trigger] s@[i])),
        r is Ok ==> hex_text_of(s@, r->Ok_0@),
{
    let mut out = [0u8; 20];
    match hex::decode_to_slice(s, &mut out) {
        Ok(()) => Ok(out),
        Err(e) => Err(e),
    }
}

/// The application/x-www-form-urlencoded text of the bytes `b`.
pub uninterp spec fn form_urlencoded_of(b: Seq<u8>) -> Seq<char>;

/// Relies on url's `form_urlencoded::byte_serialize`: the percent-encoded
/// text of the bytes, collected into one string.
#[verifier::external_body]
fn url_encode(b: &[u8; 20]) -> (r: String)
    ensures
        r@ == form_urlencoded_of(b@),
{
    url::form_urlencoded::byte_serialize(b).collect()
}

/// The decimal digit character of `d`.
pub open spec fn digit_char(d: int) -> char {
    if d == 0 { '0' } else if d == 1 { '1' } else if d == 2 { '2' } else if d == 3 { '3' }
    else if d == 4 { '4' } else if d == 5 { '5' } else if d == 6 { '6' } else if d == 7 { '7' }
    else if d == 8 { '8' } else { '9' }
}

/// The decimal text of `n`, without leading zeros.
pub open spec fn decimal(n: nat) -> Seq<char>
    decreases n,
{
    if n < 10 {
        seq![digit_char(n as int)]
    } else {
        decimal(n / 10) + seq![digit_char((n % 10) as int)]
    }
}

/// Relies on `u64::to_string` (`Display` for integers): the decimal text of
/// the number.
#[verifier::external_body]
fn decimal_text(n: u64) -> (r: String)
    ensures
        r@ == decimal(n as nat),
{
    n.to_string()
}

/// Why a descriptor cannot be used.
#[derive(Debug, Clone, Copy, PartialEq, Eq, Structural)]
pub enum TorrentError {
    /// The info hash is not 40 hexadecimal digits.
    BadInfoHash,
    /// A piece hash is not 20 bytes long.
    BadPieceHash,
    /// The piece length is not positive, or the total length is negative or too large.
    BadLength,
    /// The number of pieces does not fit the piece length and the total length.
    BadLayout,
}

/// The descriptor fields of one download.
#[derive(Debug, Clone)]
pub struct CustomTorrent {
    pub announce: String,
    pub info_hash: [u8; 20],
    pub piece_hashes: Vec<[u8; 20]>,
    pub piece_length: usize,
    pub length: usize,
    pub name: String,
}

/// Whether `n` pieces of `piece_length` bytes, the last one possibly shorter,
/// make up exactly `length` bytes.
pub open spec fn layout_ok(n: int, piece_length: int, length: int) -> bool {
    &&& piece_length > 0
    &&& n * piece_length <= usize::MAX
    &&& n == 0 ==> length == 0
    &&& n > 0 ==> (n - 1) * piece_length < length <= n * piece_length
}

/// Whether `s` is the hexadecimal text of some 20 bytes.
pub open spec fn is_hash_hex(s: Seq<char>) -> bool {
    s.len() == 40 && forall|i: int| 0 <= i < 40 ==> is_hex_digit(#[trigger] s[i])
}

/// Why the given descriptor fields make no usable descriptor, if they do not.
pub open spec fn torrent_error(
    info_hash_hex: Seq<char>,
    pieces: Seq<Seq<u8>>,
    piece_length: int,
    length: int,
) -> Option<TorrentError> {
    if !is_hash_hex(info_hash_hex) {
        Some(TorrentError::BadInfoHash)
    } else if exists|i: int| 0 <= i < pieces.len() && #[trigger] pieces[i].len() != 20 {
        Some(TorrentError::BadPieceHash)
    } else if piece_length <= 0 || length < 0 || piece_length > usize::MAX || length > usize::MAX {
        Some(TorrentError::BadLength)
    } else if !layout_ok(pieces.len() as int, piece_length, length) {
        Some(TorrentError::BadLayout)
    } else {
        None
    }
}

/// The views of a list of byte vectors.
pub open spec fn views_of(v: Seq<Vec<u8>>) -> Seq<Seq<u8>> {
    v.map_values(|p: Vec<u8>| p@)
}

/// Whether `n` pieces of `piece_length` bytes make up `length` bytes.
pub fn check_layout(n: usize, piece_length: usize, length: usize) -> (r: bool)
    ensures
        r == layout_ok(n as int, piece_length as int, length as int),
{
    if piece_length == 0 {
        return false;
    }
    let total = match n.checked_mul(piece_length) {
        Some(t) => t,
        None => {
            return false;
        },
    };
    if n == 0 {
        return length == 0;
    }
    proof {
        assert((n - 1) * piece_length == n * piece_length - piece_length) by (nonlinear_arith);
        assert(n * piece_length >= piece_length) by (nonlinear_arith)
            requires
                n >= 1,
                piece_length >= 0,
        ;
    }
    total - piece_length < length && length <= total
}

impl CustomTorrent {
    /// Whether the pieces cover the content as the lengths say.
    pub open spec fn wf(&self) -> bool {
        layout_ok(self.piece_hashes@.len() as int, self.piece_length as int, self.length as int)
    }

    /// Whether the pieces cover the content as the lengths say.
    pub fn is_well_formed(&self) -> (r: bool)
        ensures
            r == self.wf(),
    {
        check_layout(self.piece_hashes.len(), self.piece_length, self.length)
    }

    /// The descriptor made of a descriptor file's fields: the info hash as
    /// hexadecimal text, the piece hashes, the piece length, the total length,
    /// the name and the announce URL (empty when there is none).
    pub fn general_custom_torrent(
        info_hash_hex: &str,
        pieces: &Vec<Vec<u8>>,
        piece_length: i64,
        length: i64,
        name: String,
        announce: Option<String>,
    ) -> (r: Result<CustomTorrent, TorrentError>)
        ensures
            match r {
                Err(e) => torrent_error(info_hash_hex@, views_of(pieces@), piece_length as int, length as int) == Some(e),
                Ok(t) => {
                    &&& torrent_error(info_hash_hex@, views_of(pieces@), piece_length as int, length as int) is None
                    &&& hex_text_of(info_hash_hex@, t.info_hash@)
                    &&& t.piece_hashes@.len() == pieces@.len()
                    &&& forall|i: int| 0 <= i < pieces@.len() ==> #[trigger] t.piece_hashes@[i]@ == pieces@[i]@
                    &&& t.piece_length as int == piece_length
                    &&& t.length as int == length
                    &&& t.name@ == name@
                    &&& t.announce@ == match announce {
                        Some(a) => a@,
                        None => Seq::<char>::empty(),
                    }
                    &&& t.wf()
                },
            },
    {
        let ghost views = views_of(pieces@);
        let info_hash = match decode_hash_hex(info_hash_hex) {
            Ok(h) => h,
            Err(_) => {
                return Err(TorrentError::BadInfoHash);
            },
        };
        let mut piece_hashes: Vec<[u8; 20]> = Vec::new();
        let mut i: usize = 0;
        while i < pieces.len()
            invariant
                i <= pieces@.len(),
                views == views_of(pieces@),
                is_hash_hex(info_hash_hex@),
                hex_text_of(info_hash_hex@, info_hash@),
                piece_hashes@.len() == i,
                forall|k: int| 0 <= k < i ==> #[trigger] piece_hashes@[k]@ == pieces@[k]@,
                forall|k: int| 0 <= k < i ==> #[trigger] views[k].len() == 20,
            decreases pieces@.len() - i,
        {
            let p = &pieces[i];
            assert(views[i as int] == p@);
            if p.len() != 20 {
                return Err(TorrentError::BadPieceHash);
            }
            let mut h = [0u8; 20];
            let mut j: usize = 0;
            while j < 20
                invariant
                    j <= 20,
                    p@.len() == 20,
                    h@.len() == 20,
                    forall|k: int| 0 <= k < j ==> h@[k] == p@[k],
                decreases 20 - j,
            {
                h[j] = p[j];
                j = j + 1;
            }
            assert(h@ =~= p@);
            piece_hashes.push(h);
            i = i + 1;
        }
        assert(!exists|k: int| 0 <= k < views.len() && #[trigger] views[k].len() != 20);
        if piece_length <= 0 || length < 0 || piece_length as u64 > usize::MAX as u64 || length as u64
            > usize::MAX as u64 {
            return Err(TorrentError::BadLength);
        }
        let piece_length = piece_length as u64 as usize;
        let length = length as u64 as usize;
        if !check_layout(piece_hashes.len(), piece_length, length) {
            return Err(TorrentError::BadLayout);
        }
        let announce = match announce {
            Some(a) => a,
            None => String::new(),
        };
        Ok(CustomTorrent { announce, info_hash, piece_hashes, piece_length, length, name })
    }
}

/// The query of a tracker announce: the info hash and peer id url-encoded,
/// the listening port, zero bytes uploaded and downloaded, compact peers,
/// and `left` bytes still to fetch.
pub open spec fn tracker_query_text(info_hash: Seq<u8>, peer_id: Seq<u8>, port: nat, left: nat) -> Seq<char> {
    "info_hash="@ + form_urlencoded_of(info_hash) + "&peer_id="@ + form_urlencoded_of(peer_id)
        + "&port="@ + decimal(port) + "&uploaded=0&downloaded=0&compact=1&left="@ + decimal(left)
}

impl CustomTorrent {
    /// The query of the tracker announce for this content, as the peer
    /// `peer_id` listening on `port`, with the whole content still to fetch.
    pub fn build_tracker_query(&self, peer_id: &[u8; 20], port: u16) -> (r: String)
        ensures
            r@ == tracker_query_text(self.info_hash@, peer_id@, port as nat, self.length as nat),
    {
        let mut q = String::from_str("info_hash=");
        let h = url_encode(&self.info_hash);
        q.append(h.as_str());
        q.append("&peer_id=");
        let p = url_encode(peer_id);
        q.append(p.as_str());
        q.append("&port=");
        let port_text = decimal_text(port as u64);
        q.append(port_text.as_str());
        q.append("&uploaded=0&downloaded=0&compact=1&left=");
        let left_text = decimal_text(self.length as u64);
        q.append(left_text.as_str());
        q
    }
}

} // verus!
