use phoenix_protocol::crypto::message::{EncryptedMessage, ShareRequest, ShareResponse};
use phoenix_protocol::crypto::threshold::{CryptoError, DecryptionShare, ThresholdCrypto};
use phoenix_protocol::filecoin::storage::ThresholdStorage;
use phoenix_protocol::filecoin::types::FilecoinError;

fn node(shard: usize) -> ThresholdCrypto {
    ThresholdCrypto::generate_keys(3, 5, shard).ok().unwrap()
}

#[test]
fn generate_keys_rejects_invalid_shard() {
    match ThresholdCrypto::generate_keys(3, 5, 5) {
        Err(CryptoError::InvalidShard) => {}
        _ => panic!("expected InvalidShard"),
    }
    match ThresholdCrypto::generate_keys(0, 0, 0) {
        Err(CryptoError::InvalidShard) => {}
        _ => panic!("expected InvalidShard"),
    }
}

#[test]
fn generate_keys_keeps_parameters() {
    let c = node(2);
    assert_eq!((c.threshold, c.total_shards, c.my_shard_id), (3, 5, 2));
}

#[test]
fn info_names_threshold_shard_and_key() {
    let info = node(1).get_info();
    let prefix = "ThresholdCrypto: 3/5 threshold, shard 1, public_key: \"";
    assert!(info.starts_with(prefix));
    assert!(info.ends_with('"'));
    let key = &info[prefix.len()..info.len() - 1];
    assert_eq!(key.len(), 96);
    assert!(key.chars().all(|c| c.is_ascii_hexdigit() && !c.is_ascii_uppercase()));
    assert_eq!(node(0).get_info()[prefix.len()..], node(4).get_info()["ThresholdCrypto: 3/5 threshold, shard 4, public_key: \"".len()..]);
}

#[test]
fn threshold_of_shares_decrypts() {
    let sender = node(0);
    let ct = sender.encrypt_message("meet at the harbour").ok().unwrap();
    let shares: Vec<DecryptionShare> = (1..4).map(|i| node(i).create_decryption_share(&ct).ok().unwrap()).collect();
    assert_eq!(shares[0].shard_id, 1);
    assert_eq!(shares[2].shard_id, 3);
    assert_eq!(sender.combine_shares_and_decrypt(&ct, &shares).ok().unwrap(), "meet at the harbour");
}

#[test]
fn too_few_shares_fail() {
    let sender = node(0);
    let ct = sender.encrypt_message("x").ok().unwrap();
    let shares: Vec<DecryptionShare> = (1..3).map(|i| node(i).create_decryption_share(&ct).ok().unwrap()).collect();
    match sender.combine_shares_and_decrypt(&ct, &shares) {
        Err(e) => assert_eq!(e.text(), "Decryption failed: Need 3 shares, have 2"),
        Ok(_) => panic!("expected failure"),
    }
}

#[test]
fn duplicate_shard_numbers_count_once() {
    let sender = node(0);
    let ct = sender.encrypt_message("x").ok().unwrap();
    let s1 = node(1).create_decryption_share(&ct).ok().unwrap();
    let s1b = node(1).create_decryption_share(&ct).ok().unwrap();
    let s2 = node(2).create_decryption_share(&ct).ok().unwrap();
    match sender.combine_shares_and_decrypt(&ct, &[s1, s1b, s2]) {
        Err(CryptoError::DecryptionFailed(_)) => {}
        _ => panic!("expected failure with two distinct shares"),
    }
}

#[test]
fn garbage_ciphertext_gives_decryption_failure() {
    match node(1).create_decryption_share(&[]) {
        Err(CryptoError::DecryptionFailed(_)) => {}
        _ => panic!("expected DecryptionFailed"),
    }
    match node(1).create_decryption_share(&[1, 2, 3]) {
        Err(CryptoError::DecryptionFailed(_)) => {}
        _ => panic!("expected DecryptionFailed"),
    }
}

#[test]
fn single_node_round_trip_needs_threshold_one() {
    let one = ThresholdCrypto::generate_keys(1, 1, 0).ok().unwrap();
    assert_eq!(one.test_encryption_round_trip("héllo").ok().unwrap(), "héllo");
    match node(0).test_encryption_round_trip("hello") {
        Err(CryptoError::DecryptionFailed(_)) => {}
        _ => panic!("expected DecryptionFailed"),
    }
}

#[test]
fn crypto_error_texts() {
    assert_eq!(CryptoError::EncryptionFailed("a".to_string()).text(), "Encryption failed: a");
    assert_eq!(CryptoError::DecryptionFailed("b".to_string()).text(), "Decryption failed: b");
    assert_eq!(CryptoError::InvalidShard.text(), "Invalid shard ID");
}

#[test]
fn threshold_message_round_trip() {
    let crypto = node(0);
    let storage = ThresholdStorage::new(3, 5);
    let tm = storage.create_threshold_message(&crypto, "flood warning", "alice", true).ok().unwrap();
    assert_eq!(tm.message_id.len(), 36);
    assert_eq!(tm.encrypted_shards.len(), 5);
    assert_eq!((tm.threshold, tm.total_shards, tm.emergency), (3, 5, true));
    assert_eq!(tm.sender, "alice");
    let ct = storage.reconstruct_from_shards(&tm.encrypted_shards).ok().unwrap();
    let shares: Vec<DecryptionShare> = (1..4).map(|i| node(i).create_decryption_share(&ct).ok().unwrap()).collect();
    assert_eq!(crypto.combine_shares_and_decrypt(&ct, &shares).ok().unwrap(), "flood warning");
    let _ = FilecoinError::ThresholdError(String::new());
}

#[test]
fn encrypted_message_hops() {
    let mut m = EncryptedMessage::new("peer".to_string(), vec![1, 2], 3, 2);
    assert_eq!(m.id.len(), 36);
    assert_eq!((m.ttl, m.hop_count, m.threshold_needed), (2, 0, 3));
    assert!(m.decrement_ttl());
    assert!(m.decrement_ttl());
    assert_eq!((m.ttl, m.hop_count), (0, 2));
    assert!(!m.decrement_ttl());
    assert_eq!((m.ttl, m.hop_count), (0, 2));
    let other = EncryptedMessage::new("peer".to_string(), vec![], 3, 0);
    assert_ne!(other.id, m.id);
}

#[test]
fn share_request_and_response_fields() {
    let r = ShareRequest::new("m".to_string(), "p".to_string(), "Arjun".to_string());
    assert_eq!((r.message_id.as_str(), r.requester_id.as_str(), r.requester_name.as_str()), ("m", "p", "Arjun"));
    let s = ShareResponse::new("m".to_string(), "p".to_string(), "Priya".to_string(), DecryptionShare { shard_id: 4, share_data: vec![9] });
    assert_eq!(s.share.shard_id, 4);
    assert_eq!(s.provider_name, "Priya");
}

#[test]
fn repeated_hops_stop_at_ttl() {
    let mut m = EncryptedMessage::new("p".to_string(), vec![], 3, 3);
    let mut forwarded = 0;
    for _ in 0..10 {
        if m.decrement_ttl() {
            forwarded += 1;
        }
    }
    assert_eq!(forwarded, 3);
    assert_eq!((m.ttl, m.hop_count), (0, 3));
}

#[test]
fn any_three_of_five_shares_decrypt() {
    let sender = node(2);
    let ct = sender.encrypt_message("regroup at the school").ok().unwrap();
    let all: Vec<DecryptionShare> = (0..5).map(|i| node(i).create_decryption_share(&ct).ok().unwrap()).collect();
    for a in 0..5 {
        for b in (a + 1)..5 {
            for d in (b + 1)..5 {
                let picked = vec![all[d].duplicate(), all[a].duplicate(), all[b].duplicate()];
                assert_eq!(sender.combine_shares_and_decrypt(&ct, &picked).ok().unwrap(), "regroup at the school");
            }
        }
    }
}

#[test]
fn shares_after_the_threshold_are_not_read() {
    let sender = node(0);
    let ct = sender.encrypt_message("hold").ok().unwrap();
    let mut shares: Vec<DecryptionShare> = (2..5).map(|i| node(i).create_decryption_share(&ct).ok().unwrap()).collect();
    shares.push(DecryptionShare { shard_id: 9, share_data: vec![] });
    assert_eq!(sender.combine_shares_and_decrypt(&ct, &shares).ok().unwrap(), "hold");
}

#[test]
fn repeated_shard_among_first_shares_fails_despite_later_shares() {
    let sender = node(0);
    let ct = sender.encrypt_message("x").ok().unwrap();
    let s0 = node(0).create_decryption_share(&ct).ok().unwrap();
    let s1 = node(1).create_decryption_share(&ct).ok().unwrap();
    let s2 = node(2).create_decryption_share(&ct).ok().unwrap();
    let s3 = node(3).create_decryption_share(&ct).ok().unwrap();
    match sender.combine_shares_and_decrypt(&ct, &[s1.duplicate(), s0, s1, s2, s3]) {
        Err(CryptoError::DecryptionFailed(_)) => {}
        _ => panic!("expected failure"),
    }
}

#[test]
fn every_node_holds_the_same_key_set() {
    let a = ThresholdCrypto::generate_keys(3, 5, 1).ok().unwrap();
    let b = ThresholdCrypto::generate_keys(3, 7, 6).ok().unwrap();
    let key_of = |info: String| info[info.find("public_key: ").unwrap()..].to_string();
    assert_eq!(key_of(a.get_info()), key_of(b.get_info()));
    let ct = a.encrypt_message("same key").ok().unwrap();
    let shares = vec![
        a.create_decryption_share(&ct).ok().unwrap(),
        b.create_decryption_share(&ct).ok().unwrap(),
        node(3).create_decryption_share(&ct).ok().unwrap(),
    ];
    assert_eq!(b.combine_shares_and_decrypt(&ct, &shares).ok().unwrap(), "same key");
}

#[test]
fn ciphertext_is_longer_than_plaintext_and_shares_can_be_made() {
    let ct = node(0).encrypt_message("abc").ok().unwrap();
    assert!(ct.len() > 3);
    let s = node(4).create_decryption_share(&ct).ok().unwrap();
    assert_eq!(s.shard_id, 4);
    assert!(!s.share_data.is_empty());
}

#[test]
fn tampered_ciphertext_gives_no_share() {
    let mut ct = node(0).encrypt_message("abc").ok().unwrap();
    ct[56] ^= 1;
    match node(1).create_decryption_share(&ct) {
        Err(e) => assert_eq!(e.text(), "Decryption failed: Failed to create decryption share"),
        Ok(_) => panic!("expected failure"),
    }
}

#[test]
fn round_trip_at_threshold_two_fails() {
    let two = ThresholdCrypto::generate_keys(2, 3, 1).ok().unwrap();
    match two.test_encryption_round_trip("hi") {
        Err(CryptoError::DecryptionFailed(_)) => {}
        _ => panic!("expected failure"),
    }
    let one = ThresholdCrypto::generate_keys(1, 4, 3).ok().unwrap();
    assert_eq!(one.test_encryption_round_trip("").ok().unwrap(), "");
}

#[test]
fn failure_texts_of_combination_and_round_trip() {
    let sender = node(0);
    let ct = sender.encrypt_message("x").ok().unwrap();
    let s1 = node(1).create_decryption_share(&ct).ok().unwrap();
    let s2 = node(2).create_decryption_share(&ct).ok().unwrap();
    match sender.combine_shares_and_decrypt(&ct, &[s1.duplicate(), s1, s2]) {
        Err(e) => assert_eq!(e.text(), "Decryption failed: Not enough signature shares"),
        Ok(_) => panic!("expected failure"),
    }
    match node(0).test_encryption_round_trip("hello") {
        Err(e) => assert_eq!(e.text(), "Decryption failed: Not enough signature shares"),
        Ok(_) => panic!("expected failure"),
    }
    let bad = DecryptionShare { shard_id: 3, share_data: vec![] };
    let s0 = node(0).create_decryption_share(&ct).ok().unwrap();
    let s4 = node(4).create_decryption_share(&ct).ok().unwrap();
    let a = sender.combine_shares_and_decrypt(&ct, &[s0.duplicate(), bad, s4.duplicate()]);
    let b = sender.combine_shares_and_decrypt(&ct, &[s0, DecryptionShare { shard_id: 3, share_data: vec![] }, s4, node(2).create_decryption_share(&ct).ok().unwrap()]);
    match (a, b) {
        (Err(x), Err(y)) => assert_eq!(x.text(), y.text()),
        _ => panic!("expected failures"),
    }
}
