use base64::Engine;

fn encode_url_safe_no_pad(bytes: &[u8]) -> String {
    base64::engine::general_purpose::URL_SAFE_NO_PAD.encode(bytes)
}
use ephemeral_file_share::network::{Network, PeerId};

#[test]
fn test_invalid_token() {
    let result = Network::parse_connection_token("invalid-token");
    assert!(result.is_none());
}

#[test]
fn test_peer_management() {
    let mut network = Network::new();

    // Create a fake peer ID for testing
    let peer_id = PeerId::generate_ed25519();

    assert_eq!(network.get_connected_peers().len(), 0);

    network.add_peer(peer_id.duplicate());
    assert_eq!(network.get_connected_peers().len(), 1);

    network.remove_peer(&peer_id);
    assert_eq!(network.get_connected_peers().len(), 0);
}

#[test]
fn adding_a_peer_twice_keeps_one() {
    let mut network = Network::new();
    let a = PeerId::generate_ed25519();
    let b = PeerId::generate_ed25519();
    network.add_peer(a.duplicate());
    network.add_peer(b.duplicate());
    network.add_peer(a.duplicate());
    let peers = network.get_connected_peers();
    assert_eq!(peers.len(), 2);
    assert!(peers[0].equals(&a));
    assert!(peers[1].equals(&b));
    network.remove_peer(&a);
    let peers = network.get_connected_peers();
    assert_eq!(peers.len(), 1);
    assert!(peers[0].equals(&b));
    network.remove_peer(&a);
    assert_eq!(network.get_connected_peers().len(), 1);
}

#[test]
fn peer_text_round_trips() {
    let p = PeerId::generate_ed25519();
    let text = p.to_string();
    assert!(text.starts_with("12D3KooW"));
    assert!(!text.contains(':'));
    let q = PeerId::parse(&text).unwrap();
    assert!(q.equals(&p));
    assert_eq!(q.to_bytes(), p.to_bytes());
    assert!(PeerId::from_bytes(&p.to_bytes()).unwrap().equals(&p));
    assert!(PeerId::parse("not a peer").is_none());
    assert!(PeerId::from_bytes(&[1, 2, 3]).is_none());
}

#[test]
fn test_generate_and_parse_token() {
    let network = Network::new();

    let file_id = "test-file-123";
    let token = network.generate_connection_token(file_id);

    let (parsed_peer, parsed_file) = Network::parse_connection_token(&token).unwrap();

    assert!(parsed_peer.equals(&network.peer_id()));
    assert_eq!(parsed_file, file_id);
}

#[test]
fn connection_token_reads_back_whatever_its_suffix() {
    let network = Network::new();
    for suffix in [[0u8; 16], [0xff; 16], *b"0123456789abcdef", [b':'; 16]] {
        let token = network.connection_token_with_suffix("file-7", &suffix);
        let (peer, file) = Network::parse_connection_token(&token).unwrap();
        assert!(peer.equals(&network.peer_id()));
        assert_eq!(file, "file-7");
    }
}

#[test]
fn connection_token_keeps_colons_of_the_file_id() {
    let network = Network::new();
    let token = network.generate_connection_token("a:b:");
    let (_, file) = Network::parse_connection_token(&token).unwrap();
    assert_eq!(file, "a:b:");
}

#[test]
fn empty_file_id_reads_back() {
    let network = Network::new();
    let token = network.generate_connection_token("");
    let (peer, file) = Network::parse_connection_token(&token).unwrap();
    assert!(peer.equals(&network.peer_id()));
    assert_eq!(file, "");
}

#[test]
fn token_shorter_than_suffix_is_refused() {
    assert!(Network::parse_connection_token(&encode_url_safe_no_pad(b"short")).is_none());
    assert!(Network::parse_connection_token("").is_none());
}

#[test]
fn token_without_colon_or_peer_is_refused() {
    assert!(Network::parse_connection_token(&encode_url_safe_no_pad(b"no colon here0123456789abcdef")).is_none());
    assert!(Network::parse_connection_token(&encode_url_safe_no_pad(b"notapeer:file0123456789abcdef")).is_none());
    let mut not_utf8 = b"\xff\xfe:file".to_vec();
    not_utf8.extend_from_slice(&[0u8; 16]);
    assert!(Network::parse_connection_token(&encode_url_safe_no_pad(&not_utf8)).is_none());
}

#[test]
fn local_address_names_the_peer() {
    let network = Network::new();
    let addr = network.get_multiaddr().unwrap();
    assert!(!addr.to_bytes().is_empty());
    let expected = format!("/ip4/127.0.0.1/tcp/3001/p2p/{}", network.peer_id().to_string());
    let parsed = ephemeral_file_share::network::Multiaddr::parse(&expected).unwrap();
    assert_eq!(parsed.to_bytes(), addr.to_bytes());
    assert!(ephemeral_file_share::network::Multiaddr::parse("not an address").is_none());
}

#[test]
fn local_peer_stays_through_adds_and_removes() {
    let mut network = Network::new();
    let me = network.peer_id();
    let a = PeerId::generate_ed25519();
    let b = PeerId::generate_ed25519();
    let c = PeerId::generate_ed25519();
    network.add_peer(a.duplicate());
    network.add_peer(b.duplicate());
    network.remove_peer(&a);
    network.add_peer(c.duplicate());
    network.add_peer(a.duplicate());
    network.remove_peer(&c);
    assert!(network.peer_id().equals(&me));
    let peers = network.get_connected_peers();
    assert_eq!(peers.len(), 2);
    assert!(peers[0].equals(&b));
    assert!(peers[1].equals(&a));
    assert!(network.get_multiaddr().is_some());
}
