//! The request that a client sends when it connects to a session socket.
//!
//! A request has a fixed size: four magic bytes, one byte that tells the kind,
//! and the four dimensions of the terminal as big-endian 16-bit numbers.

use vstd::prelude::*;

verus! {

/// The number of bytes of every request.
pub const REQUEST_LEN: usize = 13;

/// The byte that marks an attach request.
pub const KIND_ATTACH: u8 = 1;

/// The byte that marks a resize request.
pub const KIND_RESIZE: u8 = 2;

/// The dimensions of a terminal, in characters and in pixels.
#[derive(Clone, Copy, Debug, PartialEq, Eq, Structural)]
pub struct WindowSize {
    pub rows: u16,
    pub cols: u16,
    pub xpixel: u16,
    pub ypixel: u16,
}

/// What a client asks of a session.
#[derive(Clone, Copy, Debug, PartialEq, Eq, Structural)]
pub enum Request {
    /// Connect a terminal of this size to the session.
    Attach(WindowSize),
    /// Change the size of the session's terminal, and nothing else.
    Resize(WindowSize),
}

/// Why a sequence of bytes is not a request.
#[derive(Clone, Copy, Debug, PartialEq, Eq, Structural)]
pub enum RequestError {
    /// There are fewer bytes than a request has.
    Truncated,
    /// The bytes do not start with the magic.
    InvalidHandshake,
    /// The kind is neither attach nor resize.
    UnknownRequest,
}

/// The bytes that every request starts with: `DTCH`.
pub open spec fn magic() -> Seq<u8> {
    seq![0x44u8, 0x54u8, 0x43u8, 0x48u8]
}

/// The two bytes of a 16-bit number, the high one first.
pub open spec fn be_bytes(n: u16) -> Seq<u8> {
    seq![(n / 256) as u8, (n % 256) as u8]
}

/// The 16-bit number whose high byte stands at `i`.
pub open spec fn be_number(bytes: Seq<u8>, i: int) -> u16 {
    (bytes[i] * 256 + bytes[i + 1]) as u16
}

/// The terminal size that stands in the eight bytes from `i` on.
pub open spec fn size_at(bytes: Seq<u8>, i: int) -> WindowSize {
    WindowSize {
        rows: be_number(bytes, i),
        cols: be_number(bytes, i + 2),
        xpixel: be_number(bytes, i + 4),
        ypixel: be_number(bytes, i + 6),
    }
}

/// The request that the first bytes of `bytes` hold. What follows a request
/// does not belong to it.
pub open spec fn parse_request(bytes: Seq<u8>) -> Result<Request, RequestError> {
    if bytes.len() < REQUEST_LEN {
        Err(RequestError::Truncated)
    } else if bytes.take(4) != magic() {
        Err(RequestError::InvalidHandshake)
    } else if bytes[4] == KIND_ATTACH {
        Ok(Request::Attach(size_at(bytes, 5)))
    } else if bytes[4] == KIND_RESIZE {
        Ok(Request::Resize(size_at(bytes, 5)))
    } else {
        Err(RequestError::UnknownRequest)
    }
}

impl WindowSize {
    /// The eight bytes of this size on the wire.
    pub open spec fn wire(self) -> Seq<u8> {
        be_bytes(self.rows) + be_bytes(self.cols) + be_bytes(self.xpixel) + be_bytes(self.ypixel)
    }
}

impl Request {
    /// The terminal size that the request carries.
    pub open spec fn size(self) -> WindowSize {
        match self {
            Request::Attach(size) => size,
            Request::Resize(size) => size,
        }
    }

    /// The byte that marks requests of this kind.
    pub open spec fn kind(self) -> u8 {
        match self {
            Request::Attach(_) => KIND_ATTACH,
            Request::Resize(_) => KIND_RESIZE,
        }
    }

    /// The bytes of this request on the wire.
    pub open spec fn wire(self) -> Seq<u8> {
        magic() + seq![self.kind()] + self.size().wire()
    }

    /// Appends the bytes of one request to `writer`.
    pub fn write_to(self, writer: &mut Vec<u8>)
        ensures
            final(writer)@ == old(writer)@ + self.wire(),
    {
        let (kind, size): (u8, WindowSize) = match self {
            Request::Attach(size) => (KIND_ATTACH, size),
            Request::Resize(size) => (KIND_RESIZE, size),
        };
        writer.push(0x44);
        writer.push(0x54);
        writer.push(0x43);
        writer.push(0x48);
        writer.push(kind);
        push_number(writer, size.rows);
        push_number(writer, size.cols);
        push_number(writer, size.xpixel);
        push_number(writer, size.ypixel);
        assert(writer@ =~= old(writer)@ + self.wire());
    }

    /// Parses and validates the request that `reader` starts with.
    pub fn read_from(reader: &[u8]) -> (request: Result<Self, RequestError>)
        ensures
            request == parse_request(reader@),
    {
        if reader.len() < REQUEST_LEN {
            return Err(RequestError::Truncated);
        }
        assert(reader@.take(4) == magic() <==> (reader@[0] == 0x44 && reader@[1] == 0x54
            && reader@[2] == 0x43 && reader@[3] == 0x48)) by {
            let four: Seq<u8> = reader@.take(4);
            if four == magic() {
                assert(four[0] == magic()[0] && four[1] == magic()[1]);
                assert(four[2] == magic()[2] && four[3] == magic()[3]);
            }
            if reader@[0] == 0x44 && reader@[1] == 0x54 && reader@[2] == 0x43 && reader@[3]
                == 0x48 {
                assert(four =~= magic());
            }
        }
        if reader[0] != 0x44 || reader[1] != 0x54 || reader[2] != 0x43 || reader[3] != 0x48 {
            return Err(RequestError::InvalidHandshake);
        }
        let size: WindowSize = WindowSize {
            rows: number_at(reader, 5),
            cols: number_at(reader, 7),
            xpixel: number_at(reader, 9),
            ypixel: number_at(reader, 11),
        };
        match reader[4] {
            KIND_ATTACH => Ok(Request::Attach(size)),
            KIND_RESIZE => Ok(Request::Resize(size)),
            _ => Err(RequestError::UnknownRequest),
        }
    }
}

/// Appends a 16-bit number, the high byte first.
fn push_number(writer: &mut Vec<u8>, n: u16)
    ensures
        final(writer)@ == old(writer)@ + be_bytes(n),
{
    writer.push((n / 256) as u8);
    writer.push((n % 256) as u8);
    assert(writer@ =~= old(writer)@ + be_bytes(n));
}

/// Reads the 16-bit number whose high byte stands at `i`.
fn number_at(bytes: &[u8], i: usize) -> (n: u16)
    requires
        i + 1 < bytes@.len(),
    ensures
        n == be_number(bytes@, i as int),
{
    bytes[i] as u16 * 256 + bytes[i + 1] as u16
}

impl RequestError {
    /// The words that tell a person what was wrong.
    pub open spec fn text(self) -> Seq<char> {
        match self {
            RequestError::Truncated => "failed to fill whole buffer"@,
            RequestError::InvalidHandshake => "invalid client handshake"@,
            RequestError::UnknownRequest => "unknown client request"@,
        }
    }

    /// The words that tell a person what was wrong.
    pub fn message(&self) -> (message: String)
        ensures
            message@ == self.text(),
    {
        match self {
            RequestError::Truncated => "failed to fill whole buffer".to_owned(),
            RequestError::InvalidHandshake => "invalid client handshake".to_owned(),
            RequestError::UnknownRequest => "unknown client request".to_owned(),
        }
    }
}

/// Every request occupies the same number of bytes.
pub proof fn law_request_length(request: Request)
    ensures
        request.wire().len() == REQUEST_LEN,
{
}

/// Reading gives back what was written, whatever bytes come after it.
pub proof fn law_request_round_trips(request: Request, rest: Seq<u8>)
    ensures
        parse_request(request.wire() + rest) == Ok::<Request, RequestError>(request),
{
    let bytes: Seq<u8> = request.wire() + rest;
    let size: WindowSize = request.size();
    assert(bytes.take(4) =~= magic());
    assert(bytes[4] == request.kind());
    assert(be_number(bytes, 5) == size.rows);
    assert(be_number(bytes, 7) == size.cols);
    assert(be_number(bytes, 9) == size.xpixel);
    assert(be_number(bytes, 11) == size.ypixel);
    assert(size_at(bytes, 5) == size);
}

/// Bytes are accepted only where they are what writing the request gives: no
/// request has two encodings.
pub proof fn law_request_encoding_is_unique(bytes: Seq<u8>, request: Request)
    requires
        parse_request(bytes) == Ok::<Request, RequestError>(request),
    ensures
        bytes.take(REQUEST_LEN as int) == request.wire(),
{
    let size: WindowSize = request.size();
    let head: Seq<u8> = bytes.take(REQUEST_LEN as int);
    assert forall|i: int| 0 <= i < 4 implies bytes[i] == magic()[i] by {
        assert(bytes.take(4)[i] == magic()[i]);
    }
    assert(head =~= request.wire());
}

/// Two requests with the same bytes are the same request.
pub proof fn law_request_wire_is_injective(a: Request, b: Request)
    requires
        a.wire() == b.wire(),
    ensures
        a == b,
{
    law_request_round_trips(a, Seq::empty());
    law_request_round_trips(b, Seq::empty());
}

/// The layout of a request: the letters `DTCH`, one byte for the kind, which is
/// 1 for an attach and 2 for a resize request, and then rows, columns, width and
/// height, each in two bytes of which the first counts for 256.
pub proof fn law_request_layout(size: WindowSize)
    ensures
        ({
            let attach = Request::Attach(size).wire();
            let resize = Request::Resize(size).wire();
            &&& attach.len() == 13
            &&& resize.len() == 13
            &&& attach[0] as char == 'D' && attach[1] as char == 'T'
            &&& attach[2] as char == 'C' && attach[3] as char == 'H'
            &&& attach[4] == 1
            &&& resize[4] == 2
            &&& attach[5] * 256 + attach[6] == size.rows
            &&& attach[7] * 256 + attach[8] == size.cols
            &&& attach[9] * 256 + attach[10] == size.xpixel
            &&& attach[11] * 256 + attach[12] == size.ypixel
            &&& forall|i: int| 0 <= i < 13 && i != 4 ==> #[trigger] resize[i] == attach[i]
        }),
{
}

/// The bytes start with the letters `DTCH`.
pub open spec fn has_handshake(bytes: Seq<u8>) -> bool {
    &&& bytes[0] as char == 'D'
    &&& bytes[1] as char == 'T'
    &&& bytes[2] as char == 'C'
    &&& bytes[3] as char == 'H'
}

/// The eight bytes behind the kind tell this size.
pub open spec fn tells_size(bytes: Seq<u8>, size: WindowSize) -> bool {
    &&& size.rows == bytes[5] * 256 + bytes[6]
    &&& size.cols == bytes[7] * 256 + bytes[8]
    &&& size.xpixel == bytes[9] * 256 + bytes[10]
    &&& size.ypixel == bytes[11] * 256 + bytes[12]
}

/// What becomes of any bytes. Fewer than thirteen are too few, others without
/// the letters `DTCH` in front are no handshake, and others with a kind that is
/// neither 1 nor 2 are unknown. All others are the request of their kind for the
/// size that stands in them.
pub proof fn law_every_input_has_its_outcome(bytes: Seq<u8>, size: WindowSize)
    ensures
        parse_request(bytes) == Err::<Request, RequestError>(RequestError::Truncated)
            <==> bytes.len() < 13,
        parse_request(bytes) == Err::<Request, RequestError>(RequestError::InvalidHandshake)
            <==> bytes.len() >= 13 && !has_handshake(bytes),
        parse_request(bytes) == Err::<Request, RequestError>(RequestError::UnknownRequest)
            <==> bytes.len() >= 13 && has_handshake(bytes) && bytes[4] != 1 && bytes[4] != 2,
        parse_request(bytes) == Ok::<Request, RequestError>(Request::Attach(size)) <==> bytes.len()
            >= 13 && has_handshake(bytes) && bytes[4] == 1 && tells_size(bytes, size),
        parse_request(bytes) == Ok::<Request, RequestError>(Request::Resize(size)) <==> bytes.len()
            >= 13 && has_handshake(bytes) && bytes[4] == 2 && tells_size(bytes, size),
{
    if bytes.len() >= 13 {
        let four: Seq<u8> = bytes.take(4);
        if four == magic() {
            assert(four[0] == magic()[0] && four[1] == magic()[1]);
            assert(four[2] == magic()[2] && four[3] == magic()[3]);
        }
        if has_handshake(bytes) {
            assert(four =~= magic());
        }
    }
}

} // verus!
