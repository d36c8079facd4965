use phoenix_protocol::crypto::threshold::CryptoError;
use phoenix_protocol::mesh::command::{mesh_ttl, parse_command, parse_u32, Command};
use phoenix_protocol::mesh::node::{NodeAction, PhoenixMessage, PhoenixMessageType, PhoenixNode};

fn mesh_node(shard: usize, name: &str) -> PhoenixNode {
    PhoenixNode::new(format!("peer-{}", shard), shard, name.to_string()).ok().unwrap()
}

#[test]
fn plain_message_hops() {
    let mut m = PhoenixMessage::new("p".to_string(), b"hi".to_vec(), 1);
    assert_eq!(m.id.len(), 36);
    assert!(m.decrement_ttl());
    assert_eq!((m.ttl, m.hop_count), (0, 1));
    assert!(!m.decrement_ttl());
}

#[test]
fn sent_message_is_seen_and_not_delivered_again() {
    let mut a = mesh_node(0, "Arjun");
    let sent = a.send_message(b"hello".to_vec(), 5);
    let copy = match &sent {
        PhoenixMessageType::PlainText(m) => {
            assert_eq!(m.sender, "peer-0");
            assert_eq!((m.ttl, m.hop_count), (5, 0));
            PhoenixMessage { id: m.id.clone(), sender: m.sender.clone(), content: m.content.clone(), timestamp: m.timestamp, ttl: m.ttl, hop_count: m.hop_count }
        }
        _ => panic!("expected plain text"),
    };
    assert!(a.route_message(PhoenixMessageType::PlainText(copy)).is_empty());
}

#[test]
fn plain_message_is_delivered_forwarded_and_deduplicated() {
    let mut a = mesh_node(0, "Arjun");
    let mut b = mesh_node(1, "Priya");
    let sent = a.send_message(b"hello".to_vec(), 1);
    let m = match sent { PhoenixMessageType::PlainText(m) => m, _ => panic!() };
    let id = m.id.clone();
    let again = PhoenixMessage { id: m.id.clone(), sender: m.sender.clone(), content: m.content.clone(), timestamp: m.timestamp, ttl: 0, hop_count: 1 };
    let actions = b.route_message(PhoenixMessageType::PlainText(m));
    assert_eq!(actions.len(), 2);
    match &actions[0] {
        NodeAction::Deliver { sender, content } => {
            assert_eq!(sender, "peer-0");
            assert_eq!(content, b"hello");
        }
        _ => panic!("expected delivery"),
    }
    match &actions[1] {
        NodeAction::Publish(PhoenixMessageType::PlainText(f)) => {
            assert_eq!(f.id, id);
            assert_eq!((f.ttl, f.hop_count), (0, 1));
        }
        _ => panic!("expected forwarding"),
    }
    assert!(b.route_message(PhoenixMessageType::PlainText(again)).is_empty());
}

#[test]
fn plain_message_with_no_hops_left_is_not_forwarded() {
    let mut b = mesh_node(1, "Priya");
    let m = PhoenixMessage::new("peer-0".to_string(), b"x".to_vec(), 0);
    let actions = b.route_message(PhoenixMessageType::PlainText(m));
    assert_eq!(actions.len(), 1);
}

fn share_response_of(actions: &mut Vec<NodeAction>) -> PhoenixMessageType {
    match actions.remove(0) {
        NodeAction::Publish(t @ PhoenixMessageType::ShareResponse(_)) => t,
        _ => panic!("expected a share response"),
    }
}

fn encrypted_copy(m: &PhoenixMessageType) -> PhoenixMessageType {
    match m {
        PhoenixMessageType::Encrypted(e) => PhoenixMessageType::Encrypted(e.duplicate()),
        _ => panic!("expected an encrypted message"),
    }
}

#[test]
fn encrypted_message_decrypts_after_threshold_shares() {
    let a = mesh_node(0, "Arjun");
    let mut b = mesh_node(1, "Priya");
    let mut c = mesh_node(2, "Karan");
    let mut d = mesh_node(3, "Meera");
    let sent = a.send_encrypted_message("secret meeting", 2).ok().unwrap();
    let id = match &sent { PhoenixMessageType::Encrypted(e) => { assert_eq!(e.threshold_needed, 3); e.id.clone() }, _ => panic!() };

    let mut from_b = b.route_message(encrypted_copy(&sent));
    assert_eq!(from_b.len(), 2);
    match &from_b[1] {
        NodeAction::Publish(PhoenixMessageType::Encrypted(f)) => assert_eq!((f.ttl, f.hop_count), (1, 1)),
        _ => panic!("expected forwarding"),
    }
    let share_b = share_response_of(&mut from_b);
    let mut from_c = c.route_message(encrypted_copy(&sent));
    let share_c = share_response_of(&mut from_c);
    let mut from_d = d.route_message(encrypted_copy(&sent));
    let share_d = share_response_of(&mut from_d);

    let status = b.share_status();
    assert_eq!(status.len(), 1);
    assert_eq!(status[0].message_id, id);
    assert_eq!((status[0].shares, status[0].threshold), (1, 3));
    assert_eq!(status[0].sender, "peer-0");

    assert!(b.route_message(share_c).is_empty());
    assert_eq!(b.share_status()[0].shares, 2);
    let done = b.route_message(share_d);
    assert_eq!(done.len(), 1);
    match &done[0] {
        NodeAction::Decrypted { message_id, sender, plaintext } => {
            assert_eq!(message_id, &id);
            assert_eq!(sender, "peer-0");
            assert_eq!(plaintext, "secret meeting");
        }
        _ => panic!("expected decryption"),
    }
    assert!(b.share_status().is_empty());
    assert!(c.route_message(share_b).is_empty());
    assert!(b.route_message(encrypted_copy(&sent)).is_empty());
}

#[test]
fn share_requests_are_answered_only_with_a_share() {
    let a = mesh_node(0, "Arjun");
    let mut b = mesh_node(1, "Priya");
    let sent = a.send_encrypted_message("x", 0).ok().unwrap();
    let id = match &sent { PhoenixMessageType::Encrypted(e) => e.id.clone(), _ => panic!() };
    let unknown = a.request_shares("nope".to_string());
    assert!(b.route_message(unknown).is_empty());
    let actions = b.route_message(sent);
    assert_eq!(actions.len(), 1);
    let request = a.request_shares(id.clone());
    match &request {
        PhoenixMessageType::ShareRequest(r) => {
            assert_eq!(r.requester_id, "peer-0");
            assert_eq!(r.requester_name, "Arjun");
        }
        _ => panic!(),
    }
    let answer = b.route_message(request);
    assert_eq!(answer.len(), 1);
    match &answer[0] {
        NodeAction::Publish(PhoenixMessageType::ShareResponse(r)) => {
            assert_eq!(r.message_id, id);
            assert_eq!(r.provider_id, "peer-1");
            assert_eq!(r.provider_name, "Priya");
            assert_eq!(r.share.shard_id, 1);
        }
        _ => panic!("expected a share response"),
    }
}

#[test]
fn undecodable_ciphertext_reports_share_failure() {
    let mut b = mesh_node(1, "Priya");
    let bogus = phoenix_protocol::crypto::message::EncryptedMessage::new("peer-0".to_string(), vec![1, 2, 3], 3, 0);
    let actions = b.route_message(PhoenixMessageType::Encrypted(bogus));
    assert_eq!(actions.len(), 1);
    match &actions[0] {
        NodeAction::ShareFailed { .. } => {}
        _ => panic!("expected a share failure"),
    }
    assert!(b.share_status().is_empty());
}

#[test]
fn crypto_info_of_node() {
    let a = mesh_node(2, "Karan");
    assert!(a.get_crypto_info().starts_with("ThresholdCrypto: 3/5 threshold, shard 2, public_key: \""));
}

fn send(cmd: Command) -> (u32, String) {
    match cmd {
        Command::Send { ttl, content } => (ttl, content),
        _ => panic!("expected plain text"),
    }
}

#[test]
fn commands_are_read() {
    assert!(matches!(parse_command(""), Command::Nothing));
    match parse_command("/encrypt Secret meeting") { Command::Encrypt(t) => assert_eq!(t, "Secret meeting"), _ => panic!() }
    match parse_command("/encrypt ") { Command::Encrypt(t) => assert_eq!(t, ""), _ => panic!() }
    match parse_command("/request-decrypt  abc-1 ") { Command::RequestDecrypt(t) => assert_eq!(t, "abc-1"), _ => panic!() }
    assert!(matches!(parse_command("/request-decrypt   "), Command::Nothing));
    assert!(matches!(parse_command("/shares"), Command::ShowShares));
    assert!(matches!(parse_command("/status"), Command::Status));
    assert!(matches!(parse_command("/peers"), Command::Peers));
    assert!(matches!(parse_command("/history"), Command::History));
    assert!(matches!(parse_command("/filecoin"), Command::Filecoin));
    assert!(matches!(parse_command("/routing-check"), Command::RoutingCheck));
    assert!(matches!(parse_command("/emergency-mode"), Command::EmergencyMode));
    match parse_command("/emergency Cyclone warning") { Command::Emergency(t) => assert_eq!(t, "Cyclone warning"), _ => panic!() }
    match parse_command("/store keep this") { Command::Store(t) => assert_eq!(t, "keep this"), _ => panic!() }
    match parse_command("/request-decrypt \u{3000}\tid-7\u{a0}\n") { Command::RequestDecrypt(t) => assert_eq!(t, "id-7"), _ => panic!() }
    assert_eq!(send(parse_command("/status now")), (5, "/status now".to_string()));
    assert_eq!(send(parse_command("/shares ")), (5, "/shares ".to_string()));
    assert_eq!(send(parse_command("5:This message will hop 5 times max")), (5, "This message will hop 5 times max".to_string()));
    assert_eq!(send(parse_command("12:a:b")), (12, "a:b".to_string()));
    assert_eq!(send(parse_command("Hello from Mumbai!")), (5, "Hello from Mumbai!".to_string()));
    assert_eq!(send(parse_command("note: hi")), (5, "note: hi".to_string()));
    assert_eq!(send(parse_command(":x")), (5, ":x".to_string()));
    assert_eq!(send(parse_command("+7:y")), (7, "y".to_string()));
    assert_eq!(send(parse_command("4294967296:z")), (5, "4294967296:z".to_string()));
    assert_eq!(send(parse_command("/encrypt")), (5, "/encrypt".to_string()));
}

#[test]
fn u32_text_like_std() {
    for t in ["0", "42", "+42", "4294967295", "4294967296", "", "+", "-1", "1a", " 1", "007", "99999999999999999999"] {
        assert_eq!(parse_u32(t), t.parse::<u32>().ok(), "{}", t);
    }
}

#[test]
fn node_needs_a_valid_shard() {
    match PhoenixNode::new("p".to_string(), 5, "x".to_string()) {
        Err(CryptoError::InvalidShard) => {}
        _ => panic!("expected InvalidShard"),
    }
    let n = mesh_node(4, "Meera");
    assert!(n.get_crypto_info().starts_with("ThresholdCrypto: 3/5 threshold, shard 4"));
    assert_eq!(n.crypto().my_shard_id, 4);
}

#[test]
fn seen_message_ignored_whatever_its_hop_counter() {
    let mut b = mesh_node(1, "Priya");
    let m = PhoenixMessage::new("peer-0".to_string(), b"x".to_vec(), 3);
    let again = PhoenixMessage { id: m.id.clone(), sender: m.sender.clone(), content: vec![], timestamp: 0, ttl: 7, hop_count: u32::MAX };
    assert!(!b.has_seen(&m.id));
    assert_eq!(b.route_message(PhoenixMessageType::PlainText(m)).len(), 2);
    assert!(b.has_seen(&again.id));
    assert!(b.route_message(PhoenixMessageType::PlainText(again)).is_empty());
}

#[test]
fn text_trims_unicode_white_space_like_std() {
    for t in ["", "  ", " a b ", "\u{2003}x\u{200b}", "\u{85}y\u{205f}", "z"] {
        assert_eq!(phoenix_protocol::mesh::command::trim_text(t), t.trim(), "{:?}", t);
    }
}

#[test]
fn shares_collected_early_complete_decryption_on_arrival() {
    let a = mesh_node(0, "Arjun");
    let mut b = mesh_node(1, "Priya");
    let mut c = mesh_node(2, "Karan");
    let mut d = mesh_node(3, "Meera");
    let sent = a.send_encrypted_message("bridge is out", 0).ok().unwrap();
    let mut from_c = c.route_message(encrypted_copy(&sent));
    let share_c = share_response_of(&mut from_c);
    let mut from_d = d.route_message(encrypted_copy(&sent));
    let share_d = share_response_of(&mut from_d);
    assert!(b.route_message(share_c).is_empty());
    assert!(b.route_message(share_d).is_empty());
    let actions = b.route_message(sent);
    assert_eq!(actions.len(), 2);
    match &actions[0] {
        NodeAction::Publish(PhoenixMessageType::ShareResponse(r)) => assert_eq!(r.share.shard_id, 1),
        _ => panic!("expected a share response"),
    }
    match &actions[1] {
        NodeAction::Decrypted { sender, plaintext, .. } => {
            assert_eq!(sender, "peer-0");
            assert_eq!(plaintext, "bridge is out");
        }
        _ => panic!("expected decryption"),
    }
    assert!(b.share_status().is_empty());
}

#[test]
fn tampered_ciphertext_leaves_node_unchanged() {
    let a = mesh_node(0, "Arjun");
    let mut b = mesh_node(1, "Priya");
    let sent = a.send_encrypted_message("abc", 0).ok().unwrap();
    let mut m = match sent { PhoenixMessageType::Encrypted(e) => e, _ => panic!() };
    m.encrypted_content[56] ^= 1;
    let id = m.id.clone();
    match b.handle_encrypted_message(m) {
        Err(e) => assert_eq!(e.text(), "Decryption failed: Failed to create decryption share"),
        Ok(_) => panic!("expected failure"),
    }
    assert!(b.share_status().is_empty());
    assert!(b.try_auto_decrypt(&id).is_none());
}

#[test]
fn auto_decrypt_waits_for_threshold() {
    let a = mesh_node(0, "Arjun");
    let mut b = mesh_node(1, "Priya");
    let mut c = mesh_node(2, "Karan");
    let sent = a.send_encrypted_message("wait", 0).ok().unwrap();
    let id = match &sent { PhoenixMessageType::Encrypted(e) => e.id.clone(), _ => panic!() };
    let mut from_c = c.route_message(encrypted_copy(&sent));
    let share_c = share_response_of(&mut from_c);
    assert_eq!(b.route_message(sent).len(), 1);
    assert!(b.try_auto_decrypt(&id).is_none());
    assert!(b.route_message(share_c).is_empty());
    assert_eq!(b.share_status()[0].shares, 2);
    assert!(b.try_auto_decrypt(&id).is_none());
}

#[test]
fn mesh_sends_need_a_peer() {
    assert_eq!(mesh_ttl(&parse_command("/encrypt hi"), 2), Some(5));
    assert_eq!(mesh_ttl(&parse_command("/emergency help"), 1), Some(5));
    assert_eq!(mesh_ttl(&parse_command("3:hello"), 1), Some(3));
    assert_eq!(mesh_ttl(&parse_command("hello"), 4), Some(5));
    assert_eq!(mesh_ttl(&parse_command("/encrypt hi"), 0), None);
    assert_eq!(mesh_ttl(&parse_command("3:hello"), 0), None);
    assert_eq!(mesh_ttl(&parse_command("/status"), 3), None);
}
