use phoenix_protocol::filecoin::client::{ExchangeFailure, FilecoinClient, StatusProbe};
use phoenix_protocol::filecoin::types::{FilecoinError, FilecoinStatus, StorageDeal, ThresholdMessage};

fn message(id: &str, shards: Vec<Vec<u8>>, emergency: bool) -> ThresholdMessage {
    ThresholdMessage {
        message_id: id.to_string(),
        encrypted_shards: shards,
        threshold: 2,
        total_shards: 3,
        emergency,
        sender: "alice".to_string(),
        timestamp: 42,
    }
}

fn status(connected: bool, latency: Option<u64>) -> FilecoinStatus {
    FilecoinStatus { connected, network: "filecoin".to_string(), latency, last_check: 0 }
}

#[test]
fn new_client_defaults() {
    let c = FilecoinClient::new("http://localhost:8080".to_string(), 3, 5);
    assert_eq!(c.base_url, "http://localhost:8080");
    assert_eq!(c.threshold_storage.threshold, 3);
    assert_eq!(c.threshold_storage.total_shards, 5);
    assert_eq!(c.connection_timeout_secs, 10);
    assert_eq!(c.get_emergency_cache_status(), (0, Vec::<String>::new()));
}

#[test]
fn status_of_unreachable_service() {
    let c = FilecoinClient::new("u".to_string(), 3, 5);
    let s = c.check_status(StatusProbe::Unreachable).ok().unwrap();
    assert!(!s.connected);
    assert_eq!(s.latency, None);
    assert_eq!(s.network, "filecoin");
}

#[test]
fn status_of_answering_service() {
    let c = FilecoinClient::new("u".to_string(), 3, 5);
    let ok = c.check_status(StatusProbe::Responded {
        success: true,
        elapsed_ms: 37,
        status_line: "200 OK".to_string(),
        body: String::new(),
    });
    let s = ok.ok().unwrap();
    assert!(s.connected);
    assert_eq!(s.latency, Some(37));
    let bad = c.check_status(StatusProbe::Responded {
        success: false,
        elapsed_ms: 5,
        status_line: "503 Service Unavailable".to_string(),
        body: "down".to_string(),
    });
    match bad {
        Err(FilecoinError::ConnectionError(m)) => assert_eq!(m, "HTTP 503 Service Unavailable: down"),
        _ => panic!("expected a connection error"),
    }
}

#[test]
fn routing_modes() {
    let c = FilecoinClient::new("u".to_string(), 3, 5);
    assert_eq!(c.adaptive_routing_check(Ok(status(true, Some(99)))).ok().unwrap(), "FULL_ONLINE");
    assert_eq!(c.adaptive_routing_check(Ok(status(true, Some(100)))).ok().unwrap(), "DEGRADED_ONLINE");
    assert_eq!(c.adaptive_routing_check(Ok(status(true, Some(499)))).ok().unwrap(), "DEGRADED_ONLINE");
    assert_eq!(c.adaptive_routing_check(Ok(status(true, Some(500)))).ok().unwrap(), "SLOW_ONLINE");
    assert_eq!(c.adaptive_routing_check(Ok(status(true, None))).ok().unwrap(), "UNKNOWN_ONLINE");
    assert_eq!(c.adaptive_routing_check(Ok(status(false, Some(1)))).ok().unwrap(), "OFFLINE");
    match c.adaptive_routing_check(Err(FilecoinError::ConnectionError("e".to_string()))) {
        Err(FilecoinError::ConnectionError(m)) => assert_eq!(m, "e"),
        _ => panic!("expected the error to pass through"),
    }
}

#[test]
fn local_manifest_has_placeholder_deals() {
    let c = FilecoinClient::new("u".to_string(), 2, 3);
    let m = c.create_local_manifest(message("m1", vec![vec![1, 2], vec![3], vec![0]], false)).ok().unwrap();
    assert_eq!(m.message_id, "m1");
    assert_eq!(m.manifest_cid, "local-manifest-m1");
    assert_eq!(m.threshold_needed, 2);
    assert_eq!(m.created_at, 42);
    assert_eq!(m.shard_deals.len(), 3);
    assert_eq!(m.shard_deals[0].deal_id, "local-m1-0");
    assert_eq!(m.shard_deals[2].content_cid, "local-cid-m1-2");
    assert_eq!(m.shard_deals[0].size, 2);
    assert_eq!(m.shard_deals[1].size, 1);
    assert_eq!(m.shard_deals[1].provider, "local-cache");
    assert!(m.shard_deals[1].retrieval_url.is_none());
}

#[test]
fn store_falls_back_to_local_manifest() {
    let mut c = FilecoinClient::new("u".to_string(), 2, 3);
    let r = c.store_threshold_message(message("m2", vec![vec![1]], false), Err(FilecoinError::StorageError("x".to_string())));
    let m = r.ok().unwrap();
    assert_eq!(m.manifest_cid, "local-manifest-m2");
    assert_eq!(c.get_emergency_cache_status().0, 0);
}

#[test]
fn store_keeps_service_manifest_and_caches_emergencies() {
    let mut c = FilecoinClient::new("u".to_string(), 2, 3);
    let msg = message("m3", vec![vec![1], vec![2]], true);
    let deals = vec![StorageDeal {
        deal_id: "d".to_string(),
        content_cid: "cid".to_string(),
        size: 1,
        emergency: true,
        provider: "p".to_string(),
        created_at: 1,
        retrieval_url: Some("url".to_string()),
    }];
    let service = FilecoinClient::service_manifest(&msg, deals);
    assert_eq!(service.manifest_cid, "manifest-m3");
    let m = c.store_threshold_message(msg, Ok(service)).ok().unwrap();
    assert_eq!(m.manifest_cid, "manifest-m3");
    assert_eq!(m.shard_deals[0].deal_id, "d");
    assert_eq!(c.get_emergency_cache_status(), (1, vec!["m3".to_string()]));
}

#[test]
fn retrieve_prefers_emergency_cache() {
    let mut c = FilecoinClient::new("u".to_string(), 2, 3);
    let msg = message("m4", vec![vec![1, 2], vec![3], vec![0]], true);
    let manifest = c.store_threshold_message(msg, Err(FilecoinError::StorageError("x".to_string()))).ok().unwrap();
    assert_eq!(c.retrieve_from_cache(&manifest).unwrap().ok().unwrap(), vec![1, 2, 3]);
    let got = c.retrieve_threshold_message(&manifest, Err(FilecoinError::RetrievalError("unused".to_string())));
    assert_eq!(got.ok().unwrap(), vec![1, 2, 3]);
}

#[test]
fn retrieve_uses_fetched_shards_without_cache() {
    let mut c = FilecoinClient::new("u".to_string(), 2, 3);
    let manifest = c.create_local_manifest(message("m5", vec![vec![1]], false)).ok().unwrap();
    assert!(c.retrieve_from_cache(&manifest).is_none());
    let got = c.retrieve_threshold_message(&manifest, Ok(vec![vec![5], vec![6]]));
    assert_eq!(got.ok().unwrap(), vec![5, 6]);
    match c.retrieve_threshold_message(&manifest, Ok(vec![vec![5]])) {
        Err(FilecoinError::ThresholdError(m)) => assert_eq!(m, "Need at least 2 shards, got 1"),
        _ => panic!("expected a threshold error"),
    }
    match c.retrieve_threshold_message(&manifest, Err(FilecoinError::RetrievalError("gone".to_string()))) {
        Err(FilecoinError::RetrievalError(m)) => assert_eq!(m, "gone"),
        _ => panic!("expected the retrieval error"),
    }
    assert!(c.emergency_broadcast_mode(true).is_ok());
}

#[test]
fn emergency_mode_off_clears_cache() {
    let mut c = FilecoinClient::new("u".to_string(), 2, 3);
    c.store_threshold_message(message("m6", vec![vec![1]], true), Err(FilecoinError::StorageError("x".to_string()))).ok().unwrap();
    assert!(c.emergency_broadcast_mode(true).is_ok());
    assert_eq!(c.get_emergency_cache_status().0, 1);
    assert!(c.emergency_broadcast_mode(false).is_ok());
    assert_eq!(c.get_emergency_cache_status(), (0, Vec::<String>::new()));
}

#[test]
fn base64_shards_round_trip() {
    let shards = vec![b"hello".to_vec(), vec![], vec![0, 255, 7]];
    let texts = FilecoinClient::encode_shards(&shards);
    assert_eq!(texts[0], "aGVsbG8=");
    assert_eq!(texts[1], "");
    let back = FilecoinClient::decode_shards(&texts).ok().unwrap();
    assert_eq!(back, shards);
}

#[test]
fn base64_decode_rejects_garbage() {
    match FilecoinClient::decode_shards(&vec!["aGVsbG8=".to_string(), "!!!".to_string()]) {
        Err(FilecoinError::SerializationError(_)) => {}
        _ => panic!("expected a serialization error"),
    }
}

#[test]
fn exchange_failures_are_classified() {
    match FilecoinClient::storage_error(ExchangeFailure::Refused { status_line: "500 Internal Server Error".to_string(), body: "oops".to_string() }) {
        FilecoinError::StorageError(m) => assert_eq!(m, "HTTP 500 Internal Server Error: oops"),
        _ => panic!(),
    }
    assert!(matches!(FilecoinClient::storage_error(ExchangeFailure::Unreachable("x".to_string())), FilecoinError::StorageError(_)));
    assert!(matches!(FilecoinClient::storage_error(ExchangeFailure::Unreadable("x".to_string())), FilecoinError::SerializationError(_)));
    assert!(matches!(FilecoinClient::retrieval_error(ExchangeFailure::Unreachable("x".to_string())), FilecoinError::RetrievalError(_)));
    assert!(matches!(FilecoinClient::retrieval_error(ExchangeFailure::Refused { status_line: "404 Not Found".to_string(), body: String::new() }), FilecoinError::RetrievalError(_)));
    assert!(matches!(FilecoinClient::retrieval_error(ExchangeFailure::Unreadable("x".to_string())), FilecoinError::SerializationError(_)));
    match FilecoinClient::missing_shards_error() {
        FilecoinError::SerializationError(m) => assert_eq!(m, "Invalid response format"),
        _ => panic!(),
    }
}

#[test]
fn emergency_mode_keeps_timeout() {
    let mut c = FilecoinClient::new("u".to_string(), 2, 3);
    assert!(c.emergency_broadcast_mode(false).is_ok());
    assert_eq!(c.connection_timeout_secs, 10);
    assert_eq!(c.base_url, "u");
}

#[test]
fn base64_groups_and_padding() {
    let shards = vec![b"Man".to_vec(), b"Ma".to_vec(), b"M".to_vec(), vec![0xfb, 0xff]];
    let texts = FilecoinClient::encode_shards(&shards);
    assert_eq!(texts, vec!["TWFu".to_string(), "TWE=".to_string(), "TQ==".to_string(), "+/8=".to_string()]);
}
