//! The message codec: length-prefixed frames and the typed payloads of the
//! peer wire protocol.
use vstd::prelude::*;

verus! {

/// The kind of a peer wire message.
#[derive(Debug, Clone, Copy, PartialEq, Eq, Structural)]
pub enum MessageId {
    /// Chokes the receiver.
    MsgChoke,
    /// Unchokes the receiver.
    MsgUnchoke,
    /// Expresses interest in receiving data.
    MsgInterested,
    /// Expresses disinterest in receiving data.
    MsgNotInterested,
    /// Alerts the receiver that the sender has downloaded a piece.
    MsgHave,
    /// Encodes which pieces the sender has downloaded.
    MsgBitfield,
    /// Requests a block of data from the receiver.
    MsgRequest,
    /// Delivers a block of data to fulfill a request.
    MsgPiece,
    /// Cancels a request.
    MsgCancel,
}

/// One message: its kind and the bytes that follow the id on the wire.
#[derive(Debug, Clone, PartialEq, Eq)]
pub struct Message {
    pub id: MessageId,
    pub payload: Vec<u8>,
}

/// Why a frame could not be decoded.
#[derive(Debug, Clone, Copy, PartialEq, Eq, Structural)]
pub enum MessageError {
    /// The frame is shorter or longer than its length prefix declares, or
    /// has no id byte.
    BadLength,
    /// The id byte names no message kind.
    UnknownId(u8),
}

/// The wire byte of each message kind.
pub open spec fn id_code(id: MessageId) -> u8 {
    match id {
        MessageId::MsgChoke => 0,
        MessageId::MsgUnchoke => 1,
        MessageId::MsgInterested => 2,
        MessageId::MsgNotInterested => 3,
        MessageId::MsgHave => 4,
        MessageId::MsgBitfield => 5,
        MessageId::MsgRequest => 6,
        MessageId::MsgPiece => 7,
        MessageId::MsgCancel => 8,
    }
}

/// The message kind of a wire byte, if any.
pub open spec fn id_of(b: u8) -> Option<MessageId> {
    if b == 0 {
        Some(MessageId::MsgChoke)
    } else if b == 1 {
        Some(MessageId::MsgUnchoke)
    } else if b == 2 {
        Some(MessageId::MsgInterested)
    } else if b == 3 {
        Some(MessageId::MsgNotInterested)
    } else if b == 4 {
        Some(MessageId::MsgHave)
    } else if b == 5 {
        Some(MessageId::MsgBitfield)
    } else if b == 6 {
        Some(MessageId::MsgRequest)
    } else if b == 7 {
        Some(MessageId::MsgPiece)
    } else if b == 8 {
        Some(MessageId::MsgCancel)
    } else {
        None
    }
}

/// The four big-endian bytes of `x`.
pub open spec fn be_bytes(x: u32) -> Seq<u8> {
    seq![(x >> 24u32) as u8, (x >> 16u32) as u8, (x >> 8u32) as u8, x as u8]
}

/// The number that the first four bytes of `s` encode, big-endian.
pub open spec fn be_value(s: Seq<u8>) -> u32 {
    ((s[0] as u32) << 24u32) | ((s[1] as u32) << 16u32) | ((s[2] as u32) << 8u32) | (s[3] as u32)
}

/// The complete frame of a message: length prefix, id byte, payload.
pub open spec fn frame_of(id: MessageId, payload: Seq<u8>) -> Seq<u8> {
    be_bytes((payload.len() + 1) as u32) + seq![id_code(id)] + payload
}

/// The length that a frame's prefix declares.
pub open spec fn declared_len(frame: Seq<u8>) -> int {
    be_value(frame) as int
}

/// Why `frame` is not a well-formed frame, if it is not.
pub open spec fn frame_error(frame: Seq<u8>) -> Option<MessageError> {
    if frame.len() < 4 || frame.len() != 4 + declared_len(frame) {
        Some(MessageError::BadLength)
    } else if declared_len(frame) == 0 {
        None
    } else if id_of(frame[4]) is None {
        Some(MessageError::UnknownId(frame[4]))
    } else {
        None
    }
}

/// The payload of a request for `length` bytes at `begin` in piece `index`.
pub open spec fn request_payload(index: u32, begin: u32, length: u32) -> Seq<u8> {
    be_bytes(index) + be_bytes(begin) + be_bytes(length)
}

/// Whether a piece message fits: the right kind, a header, the expected
/// piece index, and a block that lies inside a buffer of `buf_len` bytes.
pub open spec fn piece_fits(index: int, buf_len: int, id: MessageId, payload: Seq<u8>) -> bool {
    &&& id == MessageId::MsgPiece
    &&& payload.len() >= 8
    &&& be_value(payload) as int == index
    &&& be_value(payload.skip(4)) as int + (payload.len() - 8) <= buf_len
}

/// `buf` with `block` written over it from offset `begin` on.
pub open spec fn write_block(buf: Seq<u8>, begin: int, block: Seq<u8>) -> Seq<u8> {
    buf.take(begin) + block + buf.skip(begin + block.len())
}

proof fn lemma_be_round_trip(x: u32)
    ensures
        be_value(be_bytes(x)) == x,
{
    let b0 = (x >> 24u32) as u8;
    let b1 = (x >> 16u32) as u8;
    let b2 = (x >> 8u32) as u8;
    let b3 = x as u8;
    assert(((b0 as u32) << 24u32) | ((b1 as u32) << 16u32) | ((b2 as u32) << 8u32) | (b3 as u32)
        == x) by (bit_vector)
        requires
            b0 == (x >> 24u32) as u8,
            b1 == (x >> 16u32) as u8,
            b2 == (x >> 8u32) as u8,
            b3 == x as u8,
    ;
}

proof fn lemma_id_round_trip(id: MessageId)
    ensures
        id_of(id_code(id)) == Some(id),
{
}

/// The wire byte of `id` as a number.
pub fn message_id_to_u8(id: MessageId) -> (r: u8)
    ensures
        r == id_code(id),
{
    match id {
        MessageId::MsgChoke => 0,
        MessageId::MsgUnchoke => 1,
        MessageId::MsgInterested => 2,
        MessageId::MsgNotInterested => 3,
        MessageId::MsgHave => 4,
        MessageId::MsgBitfield => 5,
        MessageId::MsgRequest => 6,
        MessageId::MsgPiece => 7,
        MessageId::MsgCancel => 8,
    }
}

/// The message kind of a wire byte; `None` for a byte that names none.
pub fn uint2message_id(num: u8) -> (r: Option<MessageId>)
    ensures
        r == id_of(num),
{
    match num {
        0 => Some(MessageId::MsgChoke),
        1 => Some(MessageId::MsgUnchoke),
        2 => Some(MessageId::MsgInterested),
        3 => Some(MessageId::MsgNotInterested),
        4 => Some(MessageId::MsgHave),
        5 => Some(MessageId::MsgBitfield),
        6 => Some(MessageId::MsgRequest),
        7 => Some(MessageId::MsgPiece),
        8 => Some(MessageId::MsgCancel),
        _ => None,
    }
}

/// Appends the four big-endian bytes of `x` to `out`.
fn push_be(out: &mut Vec<u8>, x: u32)
    ensures
        final(out)@ == old(out)@ + be_bytes(x),
{
    out.push((x >> 24u32) as u8);
    out.push((x >> 16u32) as u8);
    out.push((x >> 8u32) as u8);
    out.push(x as u8);
}

/// Reads the big-endian number in the four bytes of `s` from `at` on.
fn read_be(s: &Vec<u8>, at: usize) -> (r: u32)
    requires
        at + 4 <= s@.len(),
    ensures
        r == be_value(s@.skip(at as int)),
{
    let len = s.len();
    ((s[at] as u32) << 24u32) | ((s[at + 1] as u32) << 16u32) | ((s[at + 2] as u32) << 8u32) | (
    s[at + 3] as u32)
}

/// The length that a frame's four-byte prefix declares.
pub fn decode_length(prefix: &[u8; 4]) -> (r: u32)
    ensures
        r == be_value(prefix@),
{
    ((prefix[0] as u32) << 24u32) | ((prefix[1] as u32) << 16u32) | ((prefix[2] as u32) << 8u32)
        | (prefix[3] as u32)
}

/// Writes the bytes of `src` from `from` on into `buf` from offset `begin` on.
pub(crate) fn copy_block(buf: &mut Vec<u8>, begin: usize, src: &Vec<u8>, from: usize)
    requires
        from <= src@.len(),
        begin + (src@.len() - from) <= old(buf)@.len(),
    ensures
        final(buf)@ == write_block(old(buf)@, begin as int, src@.skip(from as int)),
{
    let ghost before = buf@;
    let ghost block = src@.skip(from as int);
    let buf_len = buf.len();
    let src_len = src.len();
    let n = src_len - from;
    let mut i: usize = 0;
    while i < n
        invariant
            n == block.len(),
            before.len() == buf_len,
            src@.len() == src_len,
            n + from == src_len,
            begin + n <= before.len(),
            buf@.len() == before.len(),
            i <= n,
            block == src@.skip(from as int),
            forall|k: int| 0 <= k < begin ==> buf@[k] == before[k],
            forall|k: int| begin + i <= k < before.len() ==> buf@[k] == before[k],
            forall|k: int| 0 <= k < i ==> buf@[begin + k] == block[k],
        decreases n - i,
    {
        buf.set(begin + i, src[from + i]);
        i = i + 1;
    }
    assert(buf@ =~= write_block(before, begin as int, block));
}

/// The request for `length` bytes at offset `begin` of piece `index`.
pub fn format_request(index: usize, begin: usize, length: usize) -> (r: Message)
    requires
        index <= u32::MAX,
        begin <= u32::MAX,
        length <= u32::MAX,
    ensures
        r.id == MessageId::MsgRequest,
        r.payload@ == request_payload(index as u32, begin as u32, length as u32),
{
    let mut payload: Vec<u8> = Vec::new();
    push_be(&mut payload, index as u32);
    push_be(&mut payload, begin as u32);
    push_be(&mut payload, length as u32);
    Message { id: MessageId::MsgRequest, payload }
}

/// The announcement that the sender now has piece `i`.
pub fn format_have(i: usize) -> (r: Message)
    requires
        i <= u32::MAX,
    ensures
        r.id == MessageId::MsgHave,
        r.payload@ == be_bytes(i as u32),
{
    let mut payload: Vec<u8> = Vec::new();
    push_be(&mut payload, i as u32);
    Message { id: MessageId::MsgHave, payload }
}

/// The piece index that a have message announces; `None` when the message
/// is of another kind or its payload is not four bytes long.
pub fn parse_have(msg: &Message) -> (r: Option<u32>)
    ensures
        r == (if msg.id == MessageId::MsgHave && msg.payload@.len() == 4 {
            Some(be_value(msg.payload@))
        } else {
            None
        }),
{
    if msg.id != MessageId::MsgHave {
        return None;
    }
    if msg.payload.len() != 4 {
        return None;
    }
    let r = read_be(&msg.payload, 0);
    assert(msg.payload@.skip(0) == msg.payload@);
    Some(r)
}

/// Copies the block of a piece message for piece `index` into `buf` at the
/// offset the message gives, and returns the block's length. Returns 0 and
/// leaves `buf` as it was when the message is not such a block or the block
/// would run past the end of `buf`.
pub fn parse_piece(index: usize, buf: &mut Vec<u8>, msg: &Message) -> (r: u32)
    requires
        old(buf)@.len() <= u32::MAX,
    ensures
        piece_fits(index as int, old(buf)@.len() as int, msg.id, msg.payload@) ==> {
            &&& r as int == msg.payload@.len() - 8
            &&& final(buf)@ == write_block(
                old(buf)@,
                be_value(msg.payload@.skip(4)) as int,
                msg.payload@.skip(8),
            )
        },
        !piece_fits(index as int, old(buf)@.len() as int, msg.id, msg.payload@) ==> {
            &&& r == 0
            &&& final(buf)@ == old(buf)@
        },
{
    if msg.id != MessageId::MsgPiece {
        return 0;
    }
    if msg.payload.len() < 8 {
        return 0;
    }
    let parsed_index = read_be(&msg.payload, 0);
    assert(msg.payload@.skip(0) == msg.payload@);
    if parsed_index as usize != index {
        return 0;
    }
    let begin = read_be(&msg.payload, 4) as usize;
    let n = msg.payload.len() - 8;
    if begin > buf.len() || n > buf.len() - begin {
        return 0;
    }
    copy_block(buf, begin, &msg.payload, 8);
    n as u32
}

impl Message {
    /// A message of kind `id` with the given payload.
    pub fn new(id: MessageId, payload: Vec<u8>) -> (r: Self)
        ensures
            r.id == id,
            r.payload@ == payload@,
    {
        Self { id, payload }
    }

    /// The message's frame: a four-byte big-endian length covering the id and
    /// the payload, the id byte, then the payload.
    pub fn serialize(&self) -> (r: Vec<u8>)
        requires
            self.payload@.len() + 1 <= u32::MAX,
        ensures
            r@ == frame_of(self.id, self.payload@),
    {
        let length = (self.payload.len() + 1) as u32;
        let mut buf: Vec<u8> = Vec::new();
        push_be(&mut buf, length);
        buf.push(message_id_to_u8(self.id));
        let ghost head = buf@;
        let mut i: usize = 0;
        while i < self.payload.len()
            invariant
                i <= self.payload@.len(),
                buf@ == head + self.payload@.take(i as int),
            decreases self.payload@.len() - i,
        {
            buf.push(self.payload[i]);
            i = i + 1;
            assert(self.payload@.take(i as int) == self.payload@.take(i - 1) + seq![
                self.payload@[i - 1],
            ]);
        }
        assert(self.payload@.take(self.payload@.len() as int) == self.payload@);
        buf
    }
}

/// Decodes the bytes that follow a frame's length prefix: the id byte, then
/// the payload.
pub fn parse_body(body: &Vec<u8>) -> (r: Result<Message, MessageError>)
    ensures
        body@.len() == 0 ==> r == Err::<Message, MessageError>(MessageError::BadLength),
        body@.len() > 0 && id_of(body@[0]) is None ==> r == Err::<Message, MessageError>(
            MessageError::UnknownId(body@[0]),
        ),
        r is Ok ==> body@.len() > 0 && id_of(body@[0]) == Some(r->Ok_0.id)
            && r->Ok_0.payload@ == body@.skip(1),
        body@.len() > 0 && id_of(body@[0]) is Some ==> r is Ok,
{
    if body.len() == 0 {
        return Err(MessageError::BadLength);
    }
    let id = match uint2message_id(body[0]) {
        Some(id) => id,
        None => {
            return Err(MessageError::UnknownId(body[0]));
        },
    };
    let mut payload: Vec<u8> = Vec::new();
    let mut i: usize = 1;
    while i < body.len()
        invariant
            1 <= i <= body@.len(),
            payload@ == body@.subrange(1, i as int),
        decreases body@.len() - i,
    {
        payload.push(body[i]);
        i = i + 1;
        assert(body@.subrange(1, i as int) == body@.subrange(1, i - 1) + seq![body@[i - 1]]);
    }
    assert(body@.subrange(1, body@.len() as int) == body@.skip(1));
    Ok(Message { id, payload })
}

/// Decodes one complete frame. A zero length prefix is a keep-alive and
/// gives `Ok(None)`.
pub fn parse_frame(frame: &Vec<u8>) -> (r: Result<Option<Message>, MessageError>)
    ensures
        match r {
            Err(e) => frame_error(frame@) == Some(e),
            Ok(None) => frame_error(frame@) is None && declared_len(frame@) == 0,
            Ok(Some(m)) => {
                &&& frame_error(frame@) is None
                &&& declared_len(frame@) != 0
                &&& id_of(frame@[4]) == Some(m.id)
                &&& m.payload@ == frame@.skip(5)
            },
        },
{
    if frame.len() < 4 {
        return Err(MessageError::BadLength);
    }
    let length = read_be(frame, 0);
    assert(frame@.skip(0) == frame@);
    if frame.len() - 4 != length as usize {
        return Err(MessageError::BadLength);
    }
    if length == 0 {
        return Ok(None);
    }
    let mut body: Vec<u8> = Vec::new();
    let mut i: usize = 4;
    while i < frame.len()
        invariant
            4 <= i <= frame@.len(),
            body@ == frame@.subrange(4, i as int),
        decreases frame@.len() - i,
    {
        body.push(frame[i]);
        i = i + 1;
        assert(frame@.subrange(4, i as int) == frame@.subrange(4, i - 1) + seq![frame@[i - 1]]);
    }
    assert(body@ == frame@.skip(4));
    assert(body@.skip(1) == frame@.skip(5));
    match parse_body(&body) {
        Ok(m) => Ok(Some(m)),
        Err(e) => Err(e),
    }
}

/// Every message survives a trip through its frame: the frame is well
/// formed, is no keep-alive, and decodes to the same kind and payload.
pub proof fn lemma_message_round_trip(id: MessageId, payload: Seq<u8>)
    requires
        payload.len() + 1 <= u32::MAX,
    ensures
        frame_error(frame_of(id, payload)) is None,
        declared_len(frame_of(id, payload)) != 0,
        id_of(frame_of(id, payload)[4]) == Some(id),
        frame_of(id, payload).skip(5) == payload,
{
    let f = frame_of(id, payload);
    lemma_be_round_trip((payload.len() + 1) as u32);
    assert(f.take(4) == be_bytes((payload.len() + 1) as u32));
    assert(f[0] == f.take(4)[0] && f[1] == f.take(4)[1] && f[2] == f.take(4)[2] && f[3] == f.take(
        4,
    )[3]);
    lemma_id_round_trip(id);
    assert(f.skip(5) =~= payload);
}

} // verus!
