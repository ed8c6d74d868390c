use chatcore::session_id::{ClientSessionIdentifier, ClientSessionIdentifierError};

#[test]
fn pack_unpack_roundtrip() {
    let id = ClientSessionIdentifier::new(0xABC, 0x54321).unwrap();
    let packed = id.to_u32();
    let unpacked = ClientSessionIdentifier::from_u32(packed);
    assert_eq!(id, unpacked);
}

#[test]
fn rejects_out_of_range() {
    assert!(ClientSessionIdentifier::new(0x1000, 0).is_err());
    assert!(ClientSessionIdentifier::new(0, 0x1_00000).is_err());
}

#[test]
fn rejects_with_distinct_errors() {
    assert_eq!(
        ClientSessionIdentifier::new(0x1000, 0).unwrap_err(),
        ClientSessionIdentifierError::NodeIdOutOfRange
    );
    assert_eq!(
        ClientSessionIdentifier::new(0, 0x1_00000).unwrap_err(),
        ClientSessionIdentifierError::LocalSessionIdOutOfRange
    );
}

#[test]
fn roundtrip_at_the_edges() {
    for (node, local) in [(0u16, 0u32), (0xFFF, 0xFFFFF), (1, 0), (0, 1)] {
        let id = ClientSessionIdentifier::new(node, local).unwrap();
        assert_eq!(ClientSessionIdentifier::from_u32(id.to_u32()), id);
    }
}

#[test]
fn packing_layout_is_fixed() {
    let id = ClientSessionIdentifier::new(1, 2).unwrap();
    assert_eq!(id.to_u32(), (1 << 20) | 2);
    assert_eq!(id.get_node_id(), 1);
    assert_eq!(id.get_local_session_id(), 2);
}

#[test]
fn decoding_masks_instead_of_failing() {
    let id = ClientSessionIdentifier::from_u32(u32::MAX);
    assert_eq!(id.node_id, 0xFFF);
    assert_eq!(id.local_session_id, 0xFFFFF);
}
