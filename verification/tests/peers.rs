use tspchat::peer::PeerList;

#[test]
fn update_adds_and_replaces_by_nickname() {
    let mut peers = PeerList::new();
    assert!(peers.list().is_empty());
    peers.update(1, "Bob".to_string(), "10.0.0.2:9999".to_string(), 8080, 0, 100);
    peers.update(2, "Ann".to_string(), "10.0.0.3:9999".to_string(), 8081, 1, 150);
    peers.update(3, "Bob".to_string(), "10.0.0.4:9999".to_string(), 9090, 2, 200);
    let list = peers.list();
    assert_eq!(list.len(), 2);
    let bob = list.iter().find(|p| p.nickname == "Bob").unwrap();
    assert_eq!(bob.session_id, 3);
    assert_eq!(bob.addr, "10.0.0.4:9999");
    assert_eq!(bob.tcp_port, 9090);
    assert_eq!(bob.status, 2);
    assert_eq!(bob.last_seen, 200);
    let ann = list.iter().find(|p| p.nickname == "Ann").unwrap();
    assert_eq!(ann.session_id, 2);
}

#[test]
fn remove_stale_drops_old_peers() {
    let mut peers = PeerList::new();
    peers.update(1, "Old".to_string(), "a".to_string(), 1, 0, 1_000);
    peers.update(2, "Edge".to_string(), "b".to_string(), 2, 0, 5_000);
    peers.update(3, "New".to_string(), "c".to_string(), 3, 0, 9_000);
    peers.remove_stale(5_000, 10_000);
    let mut names: Vec<String> = peers.list().iter().map(|p| p.nickname.clone()).collect();
    names.sort();
    // seen 9000, 5000 and 1000 ns ago: only ages below the timeout stay
    assert_eq!(names, vec!["New".to_string()]);
}

#[test]
fn remove_stale_keeps_peers_from_the_future() {
    let mut peers = PeerList::new();
    peers.update(1, "Later".to_string(), "a".to_string(), 1, 0, 20_000);
    peers.remove_stale(1, 10_000);
    assert_eq!(peers.list().len(), 1);
    peers.remove_stale(0, 10_000);
    assert!(peers.list().is_empty());
}
