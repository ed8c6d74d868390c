use chatcore::client::Client;
use chatcore::net::{IpAddress, SocketAddress};
use chatcore::registry::{ClientRepository, RegistryError};
use chatcore::session_id::ClientSessionIdentifier;
use chatcore::user_info::UserInfo;

fn addr(ip: u32, port: u16) -> SocketAddress {
    SocketAddress { ip: IpAddress::V4(ip), port }
}

fn allocate(repo: &mut ClientRepository, host: u32) -> u32 {
    repo.allocate_local_client(
        IpAddress::V4(host),
        addr(host, 40000),
        None,
        addr(0x7F000001, 64738),
        None,
    )
    .unwrap()
}

#[test]
fn freed_id_is_reused_before_the_counter_advances() {
    let mut repo = ClientRepository::new(5);
    let a = allocate(&mut repo, 1);
    let b = allocate(&mut repo, 2);
    let c = allocate(&mut repo, 3);
    assert_ne!(a, b);
    assert_ne!(b, c);
    // release the middle session, then allocate again
    let freed = ClientSessionIdentifier::from_u32(b);
    assert!(repo.remove_client(freed).is_some());
    let d = allocate(&mut repo, 4);
    // the released id comes back before a fresh one is taken
    assert_eq!(d, b);
    let e = allocate(&mut repo, 5);
    assert_eq!(ClientSessionIdentifier::from_u32(e).local_session_id, 3);
}

#[test]
fn allocations_yield_pairwise_distinct_ids() {
    let mut repo = ClientRepository::new(1);
    let mut seen: Vec<u32> = Vec::new();
    for i in 0..100u32 {
        let id = allocate(&mut repo, i);
        assert!(!seen.contains(&id));
        seen.push(id);
    }
}

#[test]
fn clear_removes_exactly_the_named_node() {
    let mut repo = ClientRepository::new(1);
    let local = allocate(&mut repo, 9);
    let remote_a = ClientSessionIdentifier::new(2, 7).unwrap();
    let remote_b = ClientSessionIdentifier::new(3, 7).unwrap();
    let make_remote = |sid: ClientSessionIdentifier| {
        Client::new_local(sid, IpAddress::V4(0), addr(0, 1), None, addr(0, 2), None)
    };
    repo.add_remote_client(remote_a, make_remote(remote_a)).unwrap();
    repo.add_remote_client(remote_b, make_remote(remote_b)).unwrap();
    // clearing the local node is refused and changes nothing
    assert_eq!(
        repo.clear_clients_from_node(1).unwrap_err(),
        RegistryError::ClusterInvariantViolation
    );
    assert!(repo.get_client(remote_a).is_some());
    assert!(repo.get_client(ClientSessionIdentifier::from_u32(local)).is_some());
    // clearing node 2 removes its session and nothing else
    repo.clear_clients_from_node(2).unwrap();
    assert!(repo.get_client(remote_a).is_none());
    assert!(repo.get_client(remote_b).is_some());
    assert!(repo.get_client(ClientSessionIdentifier::from_u32(local)).is_some());
}

#[test]
fn remote_registration_under_the_local_node_is_refused() {
    let mut repo = ClientRepository::new(4);
    let sid = ClientSessionIdentifier::new(4, 0).unwrap();
    let client = Client::new_local(sid, IpAddress::V4(0), addr(0, 1), None, addr(0, 2), None);
    assert_eq!(
        repo.add_remote_client(sid, client).unwrap_err(),
        RegistryError::ClusterInvariantViolation
    );
}

#[test]
fn removal_returns_the_client_and_only_once() {
    let mut repo = ClientRepository::new(1);
    let id = allocate(&mut repo, 3);
    let sid = ClientSessionIdentifier::from_u32(id);
    let removed = repo.remove_client(sid).unwrap();
    assert_eq!(removed.get_session_id(), id);
    assert!(repo.remove_client(sid).is_none());
    assert!(repo.get_client(sid).is_none());
}

#[test]
fn voice_addresses_route_to_one_session() {
    let mut repo = ClientRepository::new(1);
    let voice = addr(0x0A000001, 5000);
    let a = repo
        .allocate_local_client(
            IpAddress::V4(1),
            addr(1, 40000),
            Some(voice),
            addr(0, 1),
            None,
        )
        .unwrap();
    // a second session with the same voice address is not routed
    let b = repo
        .allocate_local_client(
            IpAddress::V4(2),
            addr(2, 40001),
            Some(voice),
            addr(0, 1),
            None,
        )
        .unwrap();
    assert_eq!(repo.get_client_id_by_udp(&voice), Some(a));
    let client_b = repo.get_client(ClientSessionIdentifier::from_u32(b)).unwrap();
    assert_eq!(client_b.get_udp_address(), None);
}

#[test]
fn host_index_lists_sessions_of_one_host() {
    let mut repo = ClientRepository::new(1);
    let a = allocate(&mut repo, 7);
    let _b = allocate(&mut repo, 8);
    let c = allocate(&mut repo, 7);
    let sessions = repo.session_ids_for_host(&IpAddress::V4(7));
    assert_eq!(sessions, vec![a, c]);
}

#[test]
fn live_session_state_updates_through_the_registry() {
    let mut repo = ClientRepository::new(1);
    let id = allocate(&mut repo, 1);
    let sid = ClientSessionIdentifier::from_u32(id);
    assert!(repo.set_client_channel(sid, 42));
    assert_eq!(repo.get_client(sid).unwrap().get_current_channel_id(), 42);
    let info = UserInfo::new(vec!["ops".to_string()], Vec::new(), None);
    assert!(repo.set_client_user_info(sid, info));
    assert!(repo.get_client(sid).unwrap().has_group("ops"));
    let missing = ClientSessionIdentifier::new(1, 999).unwrap();
    assert!(!repo.set_client_channel(missing, 1));
}

#[test]
fn lookups_see_allocated_state() {
    let mut repo = ClientRepository::new(2);
    assert_eq!(repo.local_node_id(), 2);
    let id = repo
        .allocate_local_client(
            IpAddress::V4(0x01020304),
            addr(0x01020304, 50000),
            None,
            addr(0x7F000001, 64738),
            None,
        )
        .unwrap();
    let sid = ClientSessionIdentifier::from_u32(id);
    assert_eq!(sid.node_id, 2);
    let client = repo.get_client(sid).unwrap();
    assert_eq!(client.get_node_id(), 2);
    assert_eq!(client.get_tcp_address(), addr(0x01020304, 50000));
    assert!(!client.is_registered());
    assert!(!client.has_certificate());
}
