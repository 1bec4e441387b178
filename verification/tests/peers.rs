use peer_library::peers::{handle_list_peers, is_listed, PeerDirectory};

fn names(peers: &[&str]) -> Vec<String> {
    peers.iter().map(|p| p.to_string()).collect()
}

#[test]
fn list_peers_names_each_peer_once() {
    assert_eq!(
        handle_list_peers(&names(&["B", "A", "B", "C", "A", "B"])),
        names(&["B", "A", "C"])
    );
}

#[test]
fn list_peers_of_distinct_peers_is_unchanged() {
    assert_eq!(handle_list_peers(&names(&["A", "B", "C"])), names(&["A", "B", "C"]));
    assert_eq!(handle_list_peers(&names(&[])), names(&[]));
    assert_eq!(handle_list_peers(&names(&["A", "A", "A"])), names(&["A"]));
}

#[test]
fn is_listed_finds_exact_names() {
    let peers = names(&["A", "B"]);
    assert!(is_listed(&peers, "A"));
    assert!(is_listed(&peers, "B"));
    assert!(!is_listed(&peers, "a"));
    assert!(!is_listed(&peers, ""));
    assert!(!is_listed(&names(&[]), "A"));
}

#[test]
fn new_directory_is_empty() {
    let directory = PeerDirectory::new();
    assert_eq!(directory.len(), 0);
    assert_eq!(directory.peers(), names(&[]));
    assert!(!directory.contains("A"));
}

#[test]
fn announced_peer_joins_once() {
    let mut directory = PeerDirectory::new();
    directory.announce("A".to_string());
    directory.announce("B".to_string());
    directory.announce("A".to_string());
    assert_eq!(directory.len(), 2);
    assert_eq!(directory.peers(), names(&["A", "B"]));
    assert!(directory.contains("A"));
    assert!(directory.contains("B"));
    assert!(!directory.contains("C"));
}

#[test]
fn expired_peer_leaves() {
    let mut directory = PeerDirectory::new();
    directory.announce("A".to_string());
    directory.announce("B".to_string());
    directory.announce("C".to_string());
    assert!(directory.expire("B", &names(&["A", "C"])));
    assert_eq!(directory.peers(), names(&["A", "C"]));
    assert!(!directory.contains("B"));
    assert_eq!(directory.len(), 2);
}

#[test]
fn expired_peer_that_is_still_known_stays() {
    let mut directory = PeerDirectory::new();
    directory.announce("A".to_string());
    directory.announce("B".to_string());
    assert!(!directory.expire("B", &names(&["A", "B"])));
    assert_eq!(directory.peers(), names(&["A", "B"]));
    assert!(directory.contains("B"));
}

#[test]
fn expiry_of_a_stranger_changes_nothing() {
    let mut directory = PeerDirectory::new();
    directory.announce("A".to_string());
    assert!(directory.expire("Z", &names(&["A"])));
    assert_eq!(directory.peers(), names(&["A"]));
    assert!(directory.expire("A", &names(&[])));
    assert!(directory.expire("A", &names(&[])));
    assert_eq!(directory.len(), 0);
}

#[test]
fn peer_can_come_back_after_expiry() {
    let mut directory = PeerDirectory::new();
    directory.announce("A".to_string());
    directory.expire("A", &names(&[]));
    directory.announce("A".to_string());
    assert_eq!(directory.peers(), names(&["A"]));
}
