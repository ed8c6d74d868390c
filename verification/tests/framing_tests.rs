use chatcore::framing::{
    MAX_MESSAGE_LENGTH, Message, ProtocolError, decode_frame, encode_frame,
};

#[test]
fn frame_roundtrip_preserves_the_message() {
    let message = Message::TextMessage(vec![1, 2, 3, 4, 5]);
    let bytes = encode_frame(&message);
    let (decoded, used) = decode_frame(&bytes).unwrap();
    assert_eq!(decoded, message);
    assert_eq!(used, bytes.len());
}

#[test]
fn frame_roundtrip_for_every_kind() {
    for tag in 0u16..=25 {
        let message = Message::from_proto(tag, vec![tag as u8, 0xFF]).unwrap();
        let bytes = encode_frame(&message);
        let (decoded, used) = decode_frame(&bytes).unwrap();
        assert_eq!(decoded, message);
        assert_eq!(used, 8);
        assert_eq!(decoded.proto_tag(), tag);
    }
}

#[test]
fn empty_payload_roundtrips() {
    let message = Message::Ping(Vec::new());
    let bytes = encode_frame(&message);
    assert_eq!(bytes, vec![0, 3, 0, 0, 0, 0]);
    let (decoded, used) = decode_frame(&bytes).unwrap();
    assert_eq!(decoded, message);
    assert_eq!(used, 6);
}

#[test]
fn oversized_length_is_rejected_before_the_payload() {
    let too_long: u32 = 8 * 1024 * 1024 + 1;
    let header = vec![
        0,
        1,
        ((too_long >> 24) & 0xFF) as u8,
        ((too_long >> 16) & 0xFF) as u8,
        ((too_long >> 8) & 0xFF) as u8,
        (too_long & 0xFF) as u8,
    ];
    // no payload follows; the length check alone must reject the frame
    assert_eq!(decode_frame(&header), Err(ProtocolError::LengthExceedsMaximum));
    assert_eq!(MAX_MESSAGE_LENGTH, 8 * 1024 * 1024);
}

#[test]
fn unknown_tag_is_rejected() {
    let frame = vec![0, 26, 0, 0, 0, 0];
    assert_eq!(decode_frame(&frame), Err(ProtocolError::UnknownMessageType));
    assert!(matches!(
        Message::from_proto(26, Vec::new()),
        Err(ProtocolError::UnknownMessageType)
    ));
    assert!(matches!(
        Message::from_proto(0xFFFF, Vec::new()),
        Err(ProtocolError::UnknownMessageType)
    ));
}

#[test]
fn truncated_frames_are_incomplete() {
    assert_eq!(decode_frame(&vec![0, 1, 0]), Err(ProtocolError::Incomplete));
    // header declares four payload bytes but only two follow
    let frame = vec![0, 1, 0, 0, 0, 4, 9, 9];
    assert_eq!(decode_frame(&frame), Err(ProtocolError::Incomplete));
}

#[test]
fn voice_passthrough_bytes_stay_raw() {
    let voice = vec![0x80, 0x01, 0x02, 0x03];
    let message = Message::UDPTunnel(voice.clone());
    let bytes = encode_frame(&message);
    assert_eq!(&bytes[6..], &voice[..]);
    let (decoded, _) = decode_frame(&bytes).unwrap();
    assert_eq!(decoded.payload(), &voice);
    assert_eq!(decoded.proto_tag(), 1);
}

#[test]
fn wire_layout_is_big_endian() {
    let message = Message::Version(vec![0xAA; 258]);
    let bytes = encode_frame(&message);
    assert_eq!(bytes[0], 0);
    assert_eq!(bytes[1], 0);
    assert_eq!(bytes[2], 0);
    assert_eq!(bytes[3], 0);
    assert_eq!(bytes[4], 1);
    assert_eq!(bytes[5], 2);
    assert_eq!(message.encoded_len(), 258);
}
