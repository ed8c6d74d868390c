use chatcore::client::Client;
use chatcore::client_state::{ClientGlobalState, ClientLocalState, ClientSessionState};
use chatcore::constants::{app_name, app_protocol_version, app_version, release};
use chatcore::net::{IpAddress, SocketAddress};
use chatcore::options::ClientOptions;
use chatcore::protocol_version::ProtocolVersion;
use chatcore::proxy::{ProxyReadStep, proxy_read_step};
use chatcore::session_id::ClientSessionIdentifier;
use chatcore::states::ConnectionState;
use chatcore::user_info::UserInfo;
use chatcore::voice::CodecInfo;
use chatcore::voice_target::{VoiceTarget, VoiceTargetChannel};

fn addr(ip: u32, port: u16) -> SocketAddress {
    SocketAddress { ip: IpAddress::V4(ip), port }
}

fn local_client(cert: Option<Vec<u8>>) -> Client {
    let sid = ClientSessionIdentifier::new(1, 2).unwrap();
    Client::new_local(sid, IpAddress::V4(9), addr(9, 1000), None, addr(1, 64738), cert)
}

#[test]
fn certificate_fingerprint_is_the_sha1_digest() {
    // SHA-1 of "abc", a published reference value
    let expected = [
        0xa9u8, 0x99, 0x3e, 0x36, 0x47, 0x06, 0x81, 0x6a, 0xba, 0x3e, 0x25, 0x71, 0x78, 0x50,
        0xc2, 0x6c, 0x9c, 0xd0, 0xd8, 0x9d,
    ];
    let client = local_client(Some(b"abc".to_vec()));
    assert!(client.has_certificate());
    assert_eq!(client.get_certificate_hash().unwrap().as_slice(), &expected);
    assert!(!local_client(None).has_certificate());
}

#[test]
fn client_carries_user_info() {
    let mut client = local_client(None);
    assert!(client.get_groups_clone().is_none());
    assert!(!client.has_group("ops"));
    assert!(!client.has_token("t1"));
    let info = UserInfo::new(
        vec!["ops".to_string()],
        vec!["t1".to_string()],
        Some("Kim".to_string()),
    );
    client.set_user_info(info);
    assert!(client.has_group("ops"));
    assert!(!client.has_group("OPS")); // membership here is exact
    assert!(client.has_token("t1"));
    assert_eq!(client.get_groups_clone().unwrap(), vec!["ops".to_string()]);
    assert_eq!(client.get_tokens().unwrap(), vec!["t1".to_string()]);
}

#[test]
fn client_channel_and_connection_state() {
    let mut client = local_client(None);
    assert_eq!(client.get_current_channel_id(), 0);
    client.set_current_channel_id(44);
    assert_eq!(client.get_current_channel_id(), 44);
    assert_eq!(client.get_user_id(), None);
    assert_eq!(client.get_connection_state(), ConnectionState::Connected);
    client.set_connection_state(ConnectionState::ServerSentVersion);
    assert_eq!(client.get_connection_state(), ConnectionState::ServerSentVersion);
    assert_eq!(client.get_session_id(), (1 << 20) | 2);
    assert_eq!(client.get_node_id(), 1);
    assert_eq!(client.get_local_session_id(), 2);
}

#[test]
fn state_blocks_track_channels_and_listening() {
    let mut global = ClientGlobalState::new();
    assert_eq!(global.get_user_id(), None);
    global.set_user_id(Some(12));
    assert_eq!(global.get_user_id(), Some(12));
    global.set_current_channel_id(3);
    assert_eq!(global.get_current_channel_id(), 3);
    global.listen_channel(7);
    assert!(global.is_listening_channel(7));
    assert!(global.get_listening_channel_id().contains(&7));
    global.unlisten_channel(7);
    assert!(!global.is_listening_channel(7));

    let mut session = ClientSessionState::new(5);
    assert_eq!(session.get_current_channel_id(), 5);
    session.set_current_channel_id(6);
    assert_eq!(session.get_current_channel_id(), 6);
    session.listen_channel(1);
    assert!(session.is_listening_channel(1));
    assert!(session.get_listening_channel_id().contains(&1));
    session.unlisten_channel(1);
    assert!(!session.is_listening_channel(1));

    let local = ClientLocalState::new();
    assert!(!local.synced);
    assert!(!local.authenticated);
}

#[test]
fn user_info_membership_is_exact() {
    let info = UserInfo::new(
        vec!["alpha".to_string(), "beta".to_string()],
        vec!["tok".to_string()],
        None,
    );
    assert!(info.has_group("alpha"));
    assert!(!info.has_group("Alpha"));
    assert!(info.has_token("tok"));
    assert!(!info.has_token("TOK"));
    assert_eq!(info.get_groups().len(), 2);
    assert_eq!(info.get_tokens().len(), 1);
    assert!(info.get_display_name().is_none());
}

#[test]
fn options_toggle_independently() {
    let mut options = ClientOptions::new();
    assert!(!options.block_group_shouts());
    assert!(!options.promiscuous_mode());
    options.set_block_group_shouts(true);
    assert!(options.block_group_shouts());
    assert!(!options.promiscuous_mode());
    options.set_promiscuous_mode(true);
    options.set_block_group_shouts(false);
    assert!(!options.block_group_shouts());
    assert!(options.promiscuous_mode());
    assert_eq!(ClientOptions::default(), ClientOptions::new());
}

#[test]
fn voice_targets_collect_recipients() {
    let mut target = VoiceTarget::new();
    assert!(target.is_empty());
    target.add_session(10);
    assert!(!target.is_empty());
    let mut channel_only = VoiceTarget::new();
    channel_only.add_channel(VoiceTargetChannel {
        id: 4,
        sub_channels: true,
        links: false,
        only_group: String::new(),
    });
    assert!(!channel_only.is_empty());
}

#[test]
fn protocol_version_encodings() {
    let v = ProtocolVersion { major: 1, minor: 4, patch: 0 };
    assert_eq!(v.to_u32(), 0x0001_0400);
    assert_eq!(ProtocolVersion::from_u32(0x0001_0400), v);
    assert_eq!(v.to_u64(), 0x0001_0004_0000_0000);
    assert_eq!(ProtocolVersion::from_u64(0x0001_0004_0000_0000), v);
    // the legacy form saturates oversized components
    let big = ProtocolVersion { major: 70000, minor: 300, patch: 9 };
    assert_eq!(big.to_u32(), (0xFFFF << 16) | (0xFF << 8) | 9);
}

#[test]
fn identification_strings() {
    assert_eq!(app_name(), "chatcore");
    assert_eq!(app_version(), "0.1.0");
    assert_eq!(release(), "chatcore 0.1.0");
    let proto = app_protocol_version();
    assert_eq!((proto.major, proto.minor, proto.patch), (1, 4, 0));
    let codec = CodecInfo::default();
    assert_eq!(codec.alpha_codec, 0);
    assert!(!codec.opus);
}

#[test]
fn proxy_header_reading_steps() {
    // a complete version 1 header naming the real source
    let header = b"PROXY TCP4 192.168.0.1 192.168.0.11 56324 443\r\n".to_vec();
    assert_eq!(
        proxy_read_step(&header),
        ProxyReadStep::Done(Some(IpAddress::V4(0xC0A80001)))
    );
    // an unknown-protocol header carries no address
    let unknown = b"PROXY UNKNOWN\r\n".to_vec();
    assert_eq!(proxy_read_step(&unknown), ProxyReadStep::Done(None));
    // a prefix of a header needs more bytes
    let partial = b"PROXY TCP4 192.".to_vec();
    assert_eq!(proxy_read_step(&partial), ProxyReadStep::NeedMoreData);
}
