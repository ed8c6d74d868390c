//! The length-prefixed message framing of the control connection.
//!
//! A frame is a 2-byte big-endian tag naming the payload kind, a 4-byte
//! big-endian payload length, and exactly that many payload bytes.  The
//! tags map bijectively onto a closed enumeration of message kinds.  At
//! this layer every payload is an opaque, versioned record of its kind:
//! the structured codec is an external collaborator.  One kind,
//! [`Message::UDPTunnel`], carries raw voice bytes passed through
//! rather than an encoded record.
//!
//! A decoder rejects a declared length over the fixed ceiling before
//! any payload is read, and rejects an unrecognized tag; both are fatal
//! to the connection that sent them.

use vstd::prelude::*;

verus! {

/// The largest payload a frame may declare: eight mebibytes.
pub const MAX_MESSAGE_LENGTH: u32 = 8 * 1024 * 1024;

/// Why a frame was rejected.  Every variant is fatal to the connection.
#[derive(Debug, Clone, Copy, PartialEq, Eq, Structural)]
pub enum ProtocolError {
    /// The declared payload length exceeds the ceiling.
    LengthExceedsMaximum,
    /// The tag names no known message kind.
    UnknownMessageType,
    /// The buffer ends before the declared frame does.
    Incomplete,
}

/// One control message, as a payload kind plus its payload bytes.
#[derive(Debug, Clone, PartialEq)]
pub enum Message {
    /// Version exchange.
    Version(Vec<u8>),
    /// Raw voice data tunnelled over the control connection.
    UDPTunnel(Vec<u8>),
    /// Authentication request.
    Authenticate(Vec<u8>),
    /// Keep-alive and statistics.
    Ping(Vec<u8>),
    /// Connection rejection.
    Reject(Vec<u8>),
    /// End of the initial synchronization.
    ServerSync(Vec<u8>),
    /// Channel removal.
    ChannelRemove(Vec<u8>),
    /// Channel state.
    ChannelState(Vec<u8>),
    /// User removal.
    UserRemove(Vec<u8>),
    /// User state.
    UserState(Vec<u8>),
    /// Ban list.
    BanList(Vec<u8>),
    /// Text message.
    TextMessage(Vec<u8>),
    /// Permission denial notice.
    PermissionDenied(Vec<u8>),
    /// ACL query and update.
    ACL(Vec<u8>),
    /// User query.
    QueryUsers(Vec<u8>),
    /// Voice crypto setup.
    CryptSetup(Vec<u8>),
    /// Context action registration.
    ContextActionModify(Vec<u8>),
    /// Context action invocation.
    ContextAction(Vec<u8>),
    /// Registered-user list.
    UserList(Vec<u8>),
    /// Voice target definition.
    VoiceTarget(Vec<u8>),
    /// Permission query.
    PermissionQuery(Vec<u8>),
    /// Codec version negotiation.
    CodecVersion(Vec<u8>),
    /// User statistics.
    UserStats(Vec<u8>),
    /// Blob request.
    RequestBlob(Vec<u8>),
    /// Server configuration.
    ServerConfig(Vec<u8>),
    /// Suggested client configuration.
    SuggestConfig(Vec<u8>),
}

impl Message {
    /// The wire tag of this message's kind.
    pub open spec fn spec_tag(self) -> u16 {
        match self {
            Message::Version(_) => 0,
            Message::UDPTunnel(_) => 1,
            Message::Authenticate(_) => 2,
            Message::Ping(_) => 3,
            Message::Reject(_) => 4,
            Message::ServerSync(_) => 5,
            Message::ChannelRemove(_) => 6,
            Message::ChannelState(_) => 7,
            Message::UserRemove(_) => 8,
            Message::UserState(_) => 9,
            Message::BanList(_) => 10,
            Message::TextMessage(_) => 11,
            Message::PermissionDenied(_) => 12,
            Message::ACL(_) => 13,
            Message::QueryUsers(_) => 14,
            Message::CryptSetup(_) => 15,
            Message::ContextActionModify(_) => 16,
            Message::ContextAction(_) => 17,
            Message::UserList(_) => 18,
            Message::VoiceTarget(_) => 19,
            Message::PermissionQuery(_) => 20,
            Message::CodecVersion(_) => 21,
            Message::UserStats(_) => 22,
            Message::RequestBlob(_) => 23,
            Message::ServerConfig(_) => 24,
            Message::SuggestConfig(_) => 25,
        }
    }

    /// The payload bytes of this message.
    pub open spec fn spec_payload(self) -> Seq<u8> {
        match self {
            Message::Version(b) => b@,
            Message::UDPTunnel(b) => b@,
            Message::Authenticate(b) => b@,
            Message::Ping(b) => b@,
            Message::Reject(b) => b@,
            Message::ServerSync(b) => b@,
            Message::ChannelRemove(b) => b@,
            Message::ChannelState(b) => b@,
            Message::UserRemove(b) => b@,
            Message::UserState(b) => b@,
            Message::BanList(b) => b@,
            Message::TextMessage(b) => b@,
            Message::PermissionDenied(b) => b@,
            Message::ACL(b) => b@,
            Message::QueryUsers(b) => b@,
            Message::CryptSetup(b) => b@,
            Message::ContextActionModify(b) => b@,
            Message::ContextAction(b) => b@,
            Message::UserList(b) => b@,
            Message::VoiceTarget(b) => b@,
            Message::PermissionQuery(b) => b@,
            Message::CodecVersion(b) => b@,
            Message::UserStats(b) => b@,
            Message::RequestBlob(b) => b@,
            Message::ServerConfig(b) => b@,
            Message::SuggestConfig(b) => b@,
        }
    }

    /// The wire tag of this message's kind; tags run from 0 to 25.
    pub fn proto_tag(&self) -> (r: u16)
        ensures
            r == self.spec_tag(),
            r <= 25,
    {
        match self {
            Message::Version(_) => 0,
            Message::UDPTunnel(_) => 1,
            Message::Authenticate(_) => 2,
            Message::Ping(_) => 3,
            Message::Reject(_) => 4,
            Message::ServerSync(_) => 5,
            Message::ChannelRemove(_) => 6,
            Message::ChannelState(_) => 7,
            Message::UserRemove(_) => 8,
            Message::UserState(_) => 9,
            Message::BanList(_) => 10,
            Message::TextMessage(_) => 11,
            Message::PermissionDenied(_) => 12,
            Message::ACL(_) => 13,
            Message::QueryUsers(_) => 14,
            Message::CryptSetup(_) => 15,
            Message::ContextActionModify(_) => 16,
            Message::ContextAction(_) => 17,
            Message::UserList(_) => 18,
            Message::VoiceTarget(_) => 19,
            Message::PermissionQuery(_) => 20,
            Message::CodecVersion(_) => 21,
            Message::UserStats(_) => 22,
            Message::RequestBlob(_) => 23,
            Message::ServerConfig(_) => 24,
            Message::SuggestConfig(_) => 25,
        }
    }

    /// The payload bytes, shared.
    pub fn payload(&self) -> (r: &Vec<u8>)
        ensures
            r@ == self.spec_payload(),
    {
        match self {
            Message::Version(b) => b,
            Message::UDPTunnel(b) => b,
            Message::Authenticate(b) => b,
            Message::Ping(b) => b,
            Message::Reject(b) => b,
            Message::ServerSync(b) => b,
            Message::ChannelRemove(b) => b,
            Message::ChannelState(b) => b,
            Message::UserRemove(b) => b,
            Message::UserState(b) => b,
            Message::BanList(b) => b,
            Message::TextMessage(b) => b,
            Message::PermissionDenied(b) => b,
            Message::ACL(b) => b,
            Message::QueryUsers(b) => b,
            Message::CryptSetup(b) => b,
            Message::ContextActionModify(b) => b,
            Message::ContextAction(b) => b,
            Message::UserList(b) => b,
            Message::VoiceTarget(b) => b,
            Message::PermissionQuery(b) => b,
            Message::CodecVersion(b) => b,
            Message::UserStats(b) => b,
            Message::RequestBlob(b) => b,
            Message::ServerConfig(b) => b,
            Message::SuggestConfig(b) => b,
        }
    }

    /// The payload's length in bytes.
    pub fn encoded_len(&self) -> (r: usize)
        ensures
            r == self.spec_payload().len(),
    {
        self.payload().len()
    }

    /// Assemble the message of kind `message_type` around a payload.
    /// Fails exactly on a tag outside the closed enumeration.
    pub fn from_proto(message_type: u16, buffer: Vec<u8>) -> (r: Result<Message, ProtocolError>)
        ensures
            message_type <= 25 ==> (r matches Ok(m) && m.spec_tag() == message_type
                && m.spec_payload() == buffer@),
            message_type > 25 ==> r == Err::<Message, ProtocolError>(
                ProtocolError::UnknownMessageType,
            ),
    {
        match message_type {
            0 => Ok(Message::Version(buffer)),
            1 => Ok(Message::UDPTunnel(buffer)),
            2 => Ok(Message::Authenticate(buffer)),
            3 => Ok(Message::Ping(buffer)),
            4 => Ok(Message::Reject(buffer)),
            5 => Ok(Message::ServerSync(buffer)),
            6 => Ok(Message::ChannelRemove(buffer)),
            7 => Ok(Message::ChannelState(buffer)),
            8 => Ok(Message::UserRemove(buffer)),
            9 => Ok(Message::UserState(buffer)),
            10 => Ok(Message::BanList(buffer)),
            11 => Ok(Message::TextMessage(buffer)),
            12 => Ok(Message::PermissionDenied(buffer)),
            13 => Ok(Message::ACL(buffer)),
            14 => Ok(Message::QueryUsers(buffer)),
            15 => Ok(Message::CryptSetup(buffer)),
            16 => Ok(Message::ContextActionModify(buffer)),
            17 => Ok(Message::ContextAction(buffer)),
            18 => Ok(Message::UserList(buffer)),
            19 => Ok(Message::VoiceTarget(buffer)),
            20 => Ok(Message::PermissionQuery(buffer)),
            21 => Ok(Message::CodecVersion(buffer)),
            22 => Ok(Message::UserStats(buffer)),
            23 => Ok(Message::RequestBlob(buffer)),
            24 => Ok(Message::ServerConfig(buffer)),
            25 => Ok(Message::SuggestConfig(buffer)),
            _ => Err(ProtocolError::UnknownMessageType),
        }
    }
}

/// The two big-endian bytes of a 16-bit value.
pub open spec fn spec_u16_be(v: u16) -> Seq<u8> {
    seq![((v >> 8) & 0xFF) as u8, (v & 0xFF) as u8]
}

/// The four big-endian bytes of a 32-bit value.
pub open spec fn spec_u32_be(v: u32) -> Seq<u8> {
    seq![
        ((v >> 24) & 0xFF) as u8,
        ((v >> 16) & 0xFF) as u8,
        ((v >> 8) & 0xFF) as u8,
        (v & 0xFF) as u8,
    ]
}

/// The 16-bit value the first two bytes of `b` spell, big-endian.
pub open spec fn spec_parsed_tag(b: Seq<u8>) -> u16 {
    (((b[0] as u16) << 8) | (b[1] as u16)) as u16
}

/// The 32-bit value bytes 2 to 5 of `b` spell, big-endian.
pub open spec fn spec_parsed_len(b: Seq<u8>) -> u32 {
    ((((b[2] as u32) << 24) | ((b[3] as u32) << 16)) | (((b[4] as u32) << 8) | (b[5] as u32)))
        as u32
}

/// The wire bytes of one message: tag, payload length, payload.
pub open spec fn spec_frame_bytes(m: Message) -> Seq<u8> {
    spec_u16_be(m.spec_tag()) + spec_u32_be(m.spec_payload().len() as u32) + m.spec_payload()
}

/// What decoding a buffer yields: the errors in checking order —
/// a short header, an oversized declared length, an unknown tag, a
/// short payload — and otherwise the message whose tag and payload the
/// buffer spells, together with how many bytes the frame occupied.
pub open spec fn decode_post(b: Seq<u8>, r: Result<(Message, usize), ProtocolError>) -> bool {
    if b.len() < 6 {
        r == Err::<(Message, usize), ProtocolError>(ProtocolError::Incomplete)
    } else if spec_parsed_len(b) > MAX_MESSAGE_LENGTH {
        r == Err::<(Message, usize), ProtocolError>(ProtocolError::LengthExceedsMaximum)
    } else if spec_parsed_tag(b) > 25 {
        r == Err::<(Message, usize), ProtocolError>(ProtocolError::UnknownMessageType)
    } else if b.len() < 6 + spec_parsed_len(b) {
        r == Err::<(Message, usize), ProtocolError>(ProtocolError::Incomplete)
    } else {
        r matches Ok(p) && p.0.spec_tag() == spec_parsed_tag(b) && p.0.spec_payload()
            == b.subrange(6, 6 + spec_parsed_len(b) as int) && p.1 == 6 + spec_parsed_len(b)
    }
}

/// Encode one message into its wire frame.  The payload must fit the
/// declared-length ceiling; a longer one could never be decoded back.
pub fn encode_frame(message: &Message) -> (r: Vec<u8>)
    requires
        message.spec_payload().len() <= MAX_MESSAGE_LENGTH,
    ensures
        r@ == spec_frame_bytes(*message),
        r@.len() == 6 + message.spec_payload().len(),
{
    let tag = message.proto_tag();
    let payload = message.payload();
    let len = payload.len() as u32;
    let mut out: Vec<u8> = Vec::new();
    out.push(((tag >> 8) & 0xFF) as u8);
    out.push((tag & 0xFF) as u8);
    out.push(((len >> 24) & 0xFF) as u8);
    out.push(((len >> 16) & 0xFF) as u8);
    out.push(((len >> 8) & 0xFF) as u8);
    out.push((len & 0xFF) as u8);
    let n = payload.len();
    let mut i: usize = 0;
    while i < n
        invariant
            0 <= i <= n,
            n == payload@.len(),
            payload@ == message.spec_payload(),
            out@.len() == 6 + i,
            out@ == spec_u16_be(message.spec_tag()) + spec_u32_be(
                message.spec_payload().len() as u32,
            ) + payload@.subrange(0, i as int),
        decreases n - i,
    {
        out.push(payload[i]);
        proof {
            assert(out@ =~= spec_u16_be(message.spec_tag()) + spec_u32_be(
                message.spec_payload().len() as u32,
            ) + payload@.subrange(0, i + 1));
        }
        i += 1;
    }
    proof {
        assert(payload@.subrange(0, n as int) =~= payload@);
        assert(out@ =~= spec_frame_bytes(*message));
    }
    out
}

/// Decode the frame at the start of a buffer.
pub fn decode_frame(bytes: &Vec<u8>) -> (r: Result<(Message, usize), ProtocolError>)
    ensures
        decode_post(bytes@, r),
{
    if bytes.len() < 6 {
        return Err(ProtocolError::Incomplete);
    }
    let tag: u16 = ((bytes[0] as u16) << 8) | (bytes[1] as u16);
    let len: u32 = (((bytes[2] as u32) << 24) | ((bytes[3] as u32) << 16)) | (((bytes[4] as u32)
        << 8) | (bytes[5] as u32));
    proof {
        assert(tag == spec_parsed_tag(bytes@));
        assert(len == spec_parsed_len(bytes@));
    }
    if len > MAX_MESSAGE_LENGTH {
        return Err(ProtocolError::LengthExceedsMaximum);
    }
    if tag > 25 {
        return Err(ProtocolError::UnknownMessageType);
    }
    let total: usize = 6 + (len as usize);
    if bytes.len() < total {
        return Err(ProtocolError::Incomplete);
    }
    let mut payload: Vec<u8> = Vec::new();
    let mut i: usize = 6;
    while i < total
        invariant
            6 <= i <= total,
            total == 6 + len,
            total <= bytes@.len(),
            payload@ == bytes@.subrange(6, i as int),
        decreases total - i,
    {
        payload.push(bytes[i]);
        proof {
            assert(payload@ =~= bytes@.subrange(6, i + 1));
        }
        i += 1;
    }
    match Message::from_proto(tag, payload) {
        Ok(m) => Ok((m, total)),
        Err(e) => Err(e),
    }
}

/// Big-endian byte packing round-trips for 16-bit values.
proof fn lemma_u16_be_roundtrip(v: u16)
    ensures
        ((((((v >> 8) & 0xFF) as u8) as u16) << 8) | (((v & 0xFF) as u8) as u16)) == v,
{
    assert(((((((v >> 8) & 0xFF) as u8) as u16) << 8) | (((v & 0xFF) as u8) as u16)) == v)
        by (bit_vector);
}

/// Big-endian byte packing round-trips for 32-bit values.
proof fn lemma_u32_be_roundtrip(v: u32)
    ensures
        (((((((v >> 24) & 0xFF) as u8) as u32) << 24) | ((((v >> 16) & 0xFF) as u8) as u32)
            << 16) | ((((((v >> 8) & 0xFF) as u8) as u32) << 8) | (((v & 0xFF) as u8) as u32)))
            == v,
{
    assert((((((((v >> 24) & 0xFF) as u8) as u32) << 24) | ((((v >> 16) & 0xFF) as u8) as u32)
        << 16) | ((((((v >> 8) & 0xFF) as u8) as u32) << 8) | (((v & 0xFF) as u8) as u32))) == v)
        by (bit_vector);
}

/// Framing round-trip: decoding the bytes an encoding produced yields
/// the same kind and the same payload, consuming the whole frame.  Any
/// result that satisfies the decoder's contract on those bytes agrees
/// with the encoded message.
pub proof fn lemma_frame_roundtrip(m: Message, r: Result<(Message, usize), ProtocolError>)
    requires
        m.spec_payload().len() <= MAX_MESSAGE_LENGTH,
        decode_post(spec_frame_bytes(m), r),
    ensures
        r matches Ok(p) && p.0.spec_tag() == m.spec_tag() && p.0.spec_payload()
            == m.spec_payload() && p.1 == spec_frame_bytes(m).len(),
{
    let b = spec_frame_bytes(m);
    let tag = m.spec_tag();
    let len = m.spec_payload().len() as u32;
    assert(b.len() == 6 + m.spec_payload().len());
    assert(b[0] == ((tag >> 8) & 0xFF) as u8);
    assert(b[1] == (tag & 0xFF) as u8);
    assert(b[2] == ((len >> 24) & 0xFF) as u8);
    assert(b[3] == ((len >> 16) & 0xFF) as u8);
    assert(b[4] == ((len >> 8) & 0xFF) as u8);
    assert(b[5] == (len & 0xFF) as u8);
    lemma_u16_be_roundtrip(tag);
    lemma_u32_be_roundtrip(len);
    assert(spec_parsed_tag(b) == tag);
    assert(spec_parsed_len(b) == len);
    assert(tag <= 25);
    assert(b.subrange(6, 6 + len as int) =~= m.spec_payload());
}

} // verus!
