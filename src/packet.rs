//! Source RCON wire format: four little-endian 32-bit fields (size, id, type),
//! the body's bytes, and two NUL bytes.
use vstd::prelude::*;
use vstd::utf8::*;

verus! {

broadcast use vstd::utf8::encode_utf8_valid_utf8, vstd::utf8::encode_utf8_decode_utf8;

/// Bytes that follow the size field besides the body: id, type and the two NULs.
pub const FRAME_OVERHEAD: i32 = 10;

/// Largest body the protocol carries.
pub const MAX_BODY_LEN: i32 = 4096;

/// Largest size field a well-formed frame may carry.
pub const MAX_FRAME_SIZE: i32 = 4110;

#[derive(Clone, Copy, Debug, PartialEq, Eq, Structural)]
pub enum RconPacketType {
    Auth,
    AuthResponse,
    ExecCommand,
    ResponseValue,
    Undefined(i32),
}

impl RconPacketType {
    /// The numeric type that goes on the wire.
    pub open spec fn code(self) -> i32 {
        match self {
            RconPacketType::Auth => 3,
            RconPacketType::AuthResponse => 2,
            RconPacketType::ExecCommand => 2,
            RconPacketType::ResponseValue => 0,
            RconPacketType::Undefined(n) => n,
        }
    }

    /// The type a numeric code stands for; 2 is an AUTH_RESPONSE in a
    /// server's reply and an EXEC_COMMAND otherwise.
    pub open spec fn from_code(n: i32, is_server_response: bool) -> RconPacketType {
        if n == 3 {
            RconPacketType::Auth
        } else if n == 2 && is_server_response {
            RconPacketType::AuthResponse
        } else if n == 2 {
            RconPacketType::ExecCommand
        } else if n == 0 {
            RconPacketType::ResponseValue
        } else {
            RconPacketType::Undefined(n)
        }
    }

    pub fn to_i32(self) -> (r: i32)
        ensures
            r == self.code(),
    {
        match self {
            RconPacketType::Auth => 3,
            RconPacketType::AuthResponse => 2,
            RconPacketType::ExecCommand => 2,
            RconPacketType::ResponseValue => 0,
            RconPacketType::Undefined(n) => n,
        }
    }

    pub fn from_i32(rcon_packet_type_number: i32, is_server_response: bool) -> (r: RconPacketType)
        ensures
            r == Self::from_code(rcon_packet_type_number, is_server_response),
    {
        if rcon_packet_type_number == 3 {
            RconPacketType::Auth
        } else if rcon_packet_type_number == 2 && is_server_response {
            RconPacketType::AuthResponse
        } else if rcon_packet_type_number == 2 {
            RconPacketType::ExecCommand
        } else if rcon_packet_type_number == 0 {
            RconPacketType::ResponseValue
        } else {
            RconPacketType::Undefined(rcon_packet_type_number)
        }
    }
}

/// What a packet carries: its id, its type and its body's characters.
pub struct PacketView {
    pub id: i32,
    pub packet_type: RconPacketType,
    pub body: Seq<char>,
}

/// A packet whose size field matches its body.
pub struct RconPacket {
    size: i32,
    id: i32,
    packet_type: RconPacketType,
    body: String,
}

/// Little-endian bytes of a 32-bit value.
pub open spec fn le_bytes(x: i32) -> Seq<u8> {
    let u = #[verifier::truncate] (x as u32);
    seq![u as u8, (u >> 8u32) as u8, (u >> 16u32) as u8, (u >> 24u32) as u8]
}

/// The 32-bit value whose little-endian bytes are `b[0..4]`.
pub open spec fn le_value(b: Seq<u8>) -> i32
    recommends
        b.len() >= 4,
{
    #[verifier::truncate]
    ((b[0] as u32 | (b[1] as u32) << 8u32 | (b[2] as u32) << 16u32 | (b[3] as u32) << 24u32) as i32)
}

/// The frame of a packet with this id, type and body.
pub open spec fn encode(id: i32, packet_type: RconPacketType, body: Seq<char>) -> Seq<u8> {
    let b = encode_utf8(body);
    le_bytes((FRAME_OVERHEAD + b.len()) as i32) + le_bytes(id) + le_bytes(packet_type.code()) + b
        + seq![0u8, 0u8]
}

#[derive(Clone, Copy, Debug, PartialEq, Eq, Structural)]
pub enum ProtocolError {
    /// Fewer bytes than the frame needs.
    Truncated,
    /// A size field outside the range the protocol allows.
    BadSize,
    /// A body that is not UTF-8.
    BadUtf8,
    /// The two bytes after the body are not both NUL.
    MissingTerminator,
}

/// The size field at the front of `buf`.
pub open spec fn size_field(buf: Seq<u8>) -> int {
    le_value(buf) as int
}

/// The body bytes of a frame whose size field is `size`.
pub open spec fn body_bytes(buf: Seq<u8>, size: int) -> Seq<u8> {
    buf.subrange(12, size + 2)
}

/// The packet at the front of `buf`, with the number of bytes its frame takes.
pub open spec fn decode(buf: Seq<u8>, is_server_response: bool) -> Result<(PacketView, int), ProtocolError> {
    if buf.len() < 4 {
        Err(ProtocolError::Truncated)
    } else {
        let size = size_field(buf);
        if size < FRAME_OVERHEAD || size > MAX_FRAME_SIZE {
            Err(ProtocolError::BadSize)
        } else if buf.len() < size + 4 {
            Err(ProtocolError::Truncated)
        } else if buf[size + 2] != 0 || buf[size + 3] != 0 {
            Err(ProtocolError::MissingTerminator)
        } else if !valid_utf8(body_bytes(buf, size)) {
            Err(ProtocolError::BadUtf8)
        } else {
            Ok(
                (
                    PacketView {
                        id: le_value(buf.subrange(4, 8)),
                        packet_type: RconPacketType::from_code(le_value(buf.subrange(8, 12)), is_server_response),
                        body: decode_utf8(body_bytes(buf, size)),
                    },
                    size + 4,
                ),
            )
        }
    }
}

impl View for RconPacket {
    type V = PacketView;

    closed spec fn view(&self) -> PacketView {
        PacketView { id: self.id, packet_type: self.packet_type, body: self.body@ }
    }
}

/// The frame of a packet.
pub open spec fn packet_bytes(p: PacketView) -> Seq<u8> {
    encode(p.id, p.packet_type, p.body)
}

proof fn lemma_le_round_trip(x: i32)
    ensures
        le_value(le_bytes(x)) == x,
{
    let u = #[verifier::truncate] (x as u32);
    assert((#[verifier::truncate] (u as i32)) == x) by (bit_vector)
        requires
            u == #[verifier::truncate] (x as u32),
    ;
    assert((u as u8 as u32 | ((u >> 8u32) as u8 as u32) << 8u32 | ((u >> 16u32) as u8 as u32) << 16u32
        | ((u >> 24u32) as u8 as u32) << 24u32) == u) by (bit_vector);
}

/// A frame decodes to the packet it was encoded from, in a context where its
/// type code reads back as the same type, and its size field is ten plus the
/// body's length in bytes.
pub proof fn lemma_round_trip(id: i32, packet_type: RconPacketType, body: Seq<char>, is_server_response: bool)
    requires
        encode_utf8(body).len() <= MAX_BODY_LEN,
        RconPacketType::from_code(packet_type.code(), is_server_response) == packet_type,
    ensures
        size_field(encode(id, packet_type, body)) == FRAME_OVERHEAD + encode_utf8(body).len(),
        decode(encode(id, packet_type, body), is_server_response) == Ok::<(PacketView, int), ProtocolError>(
            (PacketView { id, packet_type, body }, FRAME_OVERHEAD + 4 + encode_utf8(body).len()),
        ),
{
    let b = encode_utf8(body);
    let size = (FRAME_OVERHEAD + b.len()) as i32;
    let buf = encode(id, packet_type, body);
    lemma_le_round_trip(size);
    lemma_le_round_trip(id);
    lemma_le_round_trip(packet_type.code());
    assert(buf.subrange(0, 4) =~= le_bytes(size));
    assert(buf.subrange(4, 8) =~= le_bytes(id));
    assert(buf.subrange(8, 12) =~= le_bytes(packet_type.code()));
    assert(le_value(buf) == le_value(buf.subrange(0, 4)));
    assert(body_bytes(buf, size as int) =~= b);
    assert(buf[size + 2] == 0 && buf[size + 3] == 0);
}

/// Appends the little-endian bytes of `x`.
fn push_le(buf: &mut Vec<u8>, x: i32)
    ensures
        final(buf)@ == old(buf)@ + le_bytes(x),
{
    let u = x as u32;
    buf.push(u as u8);
    buf.push((u >> 8u32) as u8);
    buf.push((u >> 16u32) as u8);
    buf.push((u >> 24u32) as u8);
    assert(final(buf)@ =~= old(buf)@ + le_bytes(x));
}

/// The 32-bit value whose little-endian bytes start at `at`.
fn read_le(buf: &[u8], at: usize) -> (r: i32)
    requires
        at + 4 <= buf@.len(),
    ensures
        r == le_value(buf@.subrange(at as int, at + 4)),
{
    (buf[at] as u32 | (buf[at + 1] as u32) << 8u32 | (buf[at + 2] as u32) << 16u32 | (buf[at + 3] as u32)
        << 24u32) as i32
}

/// Relies on std::str::from_utf8: `Ok` exactly for valid UTF-8, and the
/// string's characters are the ones the bytes encode.
#[verifier::external_body]
fn utf8_to_string(bytes: &[u8]) -> (r: Option<String>)
    ensures
        r is Some <==> valid_utf8(bytes@),
        r matches Some(s) ==> s@ == decode_utf8(bytes@),
{
    match std::str::from_utf8(bytes) {
        Ok(s) => Some(s.to_string()),
        Err(_) => None,
    }
}

impl RconPacket {
    #[verifier::type_invariant]
    spec fn size_matches_body(&self) -> bool {
        &&& self.size == FRAME_OVERHEAD + encode_utf8(self.body@).len()
        &&& encode_utf8(self.body@).len() <= i32::MAX - FRAME_OVERHEAD
    }

    /// Whether a body of this string fits a frame whose size is a 32-bit value.
    pub open spec fn body_fits(body: Seq<char>) -> bool {
        encode_utf8(body).len() <= i32::MAX - FRAME_OVERHEAD
    }

    pub fn new(id: i32, packet_type: RconPacketType, body: String) -> (r: RconPacket)
        requires
            Self::body_fits(body@),
        ensures
            r@ == (PacketView { id, packet_type, body: body@ }),
    {
        let n = body.as_str().len();
        RconPacket { size: FRAME_OVERHEAD + n as i32, id, packet_type, body }
    }

    /// The packet's frame.
    pub fn serialize(&self) -> (r: Vec<u8>)
        ensures
            r@ == packet_bytes(self@),
    {
        proof {
            use_type_invariant(self);
        }
        let mut buffer: Vec<u8> = Vec::new();
        push_le(&mut buffer, self.size);
        push_le(&mut buffer, self.id);
        push_le(&mut buffer, self.packet_type.to_i32());
        let head = buffer.len();
        let bytes = self.body.as_str().as_bytes();
        let mut i: usize = 0;
        while i < bytes.len()
            invariant
                head == 12,
                i <= bytes@.len(),
                buffer@ == le_bytes(self.size) + le_bytes(self.id) + le_bytes(self.packet_type.code())
                    + bytes@.subrange(0, i as int),
            decreases bytes@.len() - i,
        {
            buffer.push(bytes[i]);
            i = i + 1;
            assert(bytes@.subrange(0, i as int) =~= bytes@.subrange(0, i - 1) + seq![bytes@[i - 1]]);
            assert(buffer@ =~= le_bytes(self.size) + le_bytes(self.id) + le_bytes(self.packet_type.code())
                + bytes@.subrange(0, i as int));
        }
        buffer.push(0u8);
        buffer.push(0u8);
        assert(bytes@.subrange(0, i as int) =~= bytes@);
        assert(buffer@ =~= packet_bytes(self@));
        buffer
    }

    /// Reads the packet at the front of `buf`, and the number of bytes its
    /// frame takes; a type code of 2 is read as an AUTH_RESPONSE when
    /// `is_server_response` holds.
    pub fn deserialize(buf: &[u8], is_server_response: bool) -> (r: Result<(RconPacket, usize), ProtocolError>)
        ensures
            match r {
                Ok((p, n)) => decode(buf@, is_server_response) == Ok::<(PacketView, int), ProtocolError>((p@, n as int)),
                Err(e) => decode(buf@, is_server_response) == Err::<(PacketView, int), ProtocolError>(e),
            },
    {
        if buf.len() < 4 {
            return Err(ProtocolError::Truncated);
        }
        let size = read_le(buf, 0);
        if size < FRAME_OVERHEAD || size > MAX_FRAME_SIZE {
            return Err(ProtocolError::BadSize);
        }
        let total = size as usize + 4;
        if buf.len() < total {
            return Err(ProtocolError::Truncated);
        }
        if buf[total - 2] != 0 || buf[total - 1] != 0 {
            return Err(ProtocolError::MissingTerminator);
        }
        let id = read_le(buf, 4);
        let code = read_le(buf, 8);
        let body = match utf8_to_string(&buf[12..total - 2]) {
            Some(s) => s,
            None => {
                return Err(ProtocolError::BadUtf8);
            },
        };
        proof {
            decode_utf8_encode_utf8(buf@.subrange(12, total - 2));
        }
        let packet = RconPacket {
            size,
            id,
            packet_type: RconPacketType::from_i32(code, is_server_response),
            body,
        };
        Ok((packet, total))
    }

    pub fn get_id(&self) -> (r: i32)
        ensures
            r == self@.id,
    {
        self.id
    }

    pub fn get_type(&self) -> (r: RconPacketType)
        ensures
            r == self@.packet_type,
    {
        self.packet_type
    }

    pub fn get_body(&self) -> (r: &str)
        ensures
            r@ == self@.body,
    {
        self.body.as_str()
    }

    /// A negative id marks a failed request.
    pub fn is_error(&self) -> (r: bool)
        ensures
            r == (self@.id < 0),
    {
        self.id < 0
    }
}

} // verus!
