use phoenix_protocol::filecoin::storage::{EmergencyCache, ThresholdStorage};
use phoenix_protocol::filecoin::types::{FilecoinError, ThresholdMessage};

fn message(id: &str, shards: Vec<Vec<u8>>, emergency: bool) -> ThresholdMessage {
    ThresholdMessage {
        message_id: id.to_string(),
        encrypted_shards: shards,
        threshold: 2,
        total_shards: 3,
        emergency,
        sender: "alice".to_string(),
        timestamp: 1_700_000_000_000,
    }
}

#[test]
fn new_storage_keeps_parameters() {
    let s = ThresholdStorage::new(3, 5);
    assert_eq!(s.threshold, 3);
    assert_eq!(s.total_shards, 5);
}

#[test]
fn shards_split_with_extra_bytes_first() {
    let s = ThresholdStorage::new(2, 3);
    let shards = s.create_shards(b"hello").ok().unwrap();
    assert_eq!(shards, vec![b"he".to_vec(), b"ll".to_vec(), b"o".to_vec()]);
}

#[test]
fn shards_pad_when_data_is_short() {
    let s = ThresholdStorage::new(3, 5);
    let shards = s.create_shards(&[7, 8, 9]).ok().unwrap();
    assert_eq!(shards, vec![vec![7, 8], vec![9], vec![0], vec![0], vec![0]]);
}

#[test]
fn shards_of_empty_data_are_all_padding() {
    let s = ThresholdStorage::new(1, 4);
    let shards = s.create_shards(&[]).ok().unwrap();
    assert_eq!(shards, vec![vec![0u8]; 4]);
}

#[test]
fn shards_even_split() {
    let s = ThresholdStorage::new(3, 5);
    let data: Vec<u8> = (1..=10).collect();
    let shards = s.create_shards(&data).ok().unwrap();
    assert_eq!(shards.len(), 5);
    for (i, shard) in shards.iter().enumerate() {
        assert_eq!(shard, &vec![(2 * i + 1) as u8, (2 * i + 2) as u8]);
    }
}

#[test]
fn reconstruct_inverts_create_shards() {
    let s = ThresholdStorage::new(3, 5);
    for data in [b"".to_vec(), b"ab".to_vec(), b"hello world".to_vec(), (1..=200u8).collect::<Vec<u8>>()] {
        let shards = s.create_shards(&data).ok().unwrap();
        let back = s.reconstruct_from_shards(&shards).ok().unwrap();
        assert_eq!(back, data);
    }
}

#[test]
fn reconstruct_needs_threshold_shards() {
    let s = ThresholdStorage::new(3, 5);
    match s.reconstruct_from_shards(&[vec![1], vec![2]]) {
        Err(FilecoinError::ThresholdError(m)) => assert_eq!(m, "Need at least 3 shards, got 2"),
        _ => panic!("expected a threshold error"),
    }
}

#[test]
fn reconstruct_skips_padding_and_extra_shards() {
    let s = ThresholdStorage::new(2, 3);
    let shards = vec![vec![1, 2], vec![0], vec![3], vec![4, 4]];
    assert_eq!(s.reconstruct_from_shards(&shards).ok().unwrap(), vec![1, 2, 3]);
}

#[test]
fn reconstruct_drops_a_data_shard_that_looks_like_padding() {
    let s = ThresholdStorage::new(1, 1);
    let shards = s.create_shards(&[0]).ok().unwrap();
    assert_eq!(shards, vec![vec![0u8]]);
    assert_eq!(s.reconstruct_from_shards(&shards).ok().unwrap(), Vec::<u8>::new());
}

#[test]
fn error_texts() {
    assert_eq!(FilecoinError::ConnectionError("x".to_string()).text(), "Connection error: x");
    assert_eq!(FilecoinError::StorageError("x".to_string()).text(), "Storage error: x");
    assert_eq!(FilecoinError::RetrievalError("x".to_string()).text(), "Retrieval error: x");
    assert_eq!(FilecoinError::SerializationError("x".to_string()).text(), "Serialization error: x");
    assert_eq!(FilecoinError::ThresholdError("x".to_string()).text(), "Threshold error: x");
}

#[test]
fn cache_keeps_messages_by_id() {
    let mut cache = EmergencyCache::new(3);
    cache.cache_message(message("a", vec![vec![1]], true));
    cache.cache_message(message("b", vec![vec![2]], true));
    assert_eq!(cache.list_cached_messages(), vec!["a".to_string(), "b".to_string()]);
    assert_eq!(cache.get_cached_message("b").unwrap().encrypted_shards, vec![vec![2u8]]);
    assert!(cache.get_cached_message("c").is_none());
}

#[test]
fn cache_drops_oldest_when_full() {
    let mut cache = EmergencyCache::new(2);
    cache.cache_message(message("a", vec![vec![1]], true));
    cache.cache_message(message("b", vec![vec![2]], true));
    cache.cache_message(message("c", vec![vec![3]], true));
    assert_eq!(cache.list_cached_messages(), vec!["b".to_string(), "c".to_string()]);
    assert!(cache.get_cached_message("a").is_none());
}

#[test]
fn cache_replaces_message_with_same_id() {
    let mut cache = EmergencyCache::new(5);
    cache.cache_message(message("a", vec![vec![1]], true));
    cache.cache_message(message("b", vec![vec![2]], true));
    cache.cache_message(message("a", vec![vec![9]], true));
    assert_eq!(cache.list_cached_messages(), vec!["a".to_string(), "b".to_string()]);
    assert_eq!(cache.get_cached_message("a").unwrap().encrypted_shards, vec![vec![9u8]]);
}

#[test]
fn cache_with_zero_limit_still_holds_the_newest() {
    let mut cache = EmergencyCache::new(0);
    cache.cache_message(message("a", vec![], true));
    cache.cache_message(message("b", vec![], true));
    assert_eq!(cache.list_cached_messages(), vec!["b".to_string()]);
}

#[test]
fn cache_clear_empties() {
    let mut cache = EmergencyCache::new(5);
    cache.cache_message(message("a", vec![vec![1]], true));
    cache.clear_cache();
    assert!(cache.list_cached_messages().is_empty());
    assert!(cache.get_cached_message("a").is_none());
}

#[test]
fn cache_keeps_latest_of_many() {
    let mut cache = EmergencyCache::new(3);
    let ids = ["m1", "m2", "m3", "m4", "m5", "m6", "m7"];
    for id in ids.iter() {
        cache.cache_message(message(id, vec![vec![1]], false));
    }
    assert_eq!(cache.list_cached_messages(), vec!["m5".to_string(), "m6".to_string(), "m7".to_string()]);
}
