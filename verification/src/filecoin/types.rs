//! Records exchanged with the storage service.

use vstd::prelude::*;
use vstd::string::StringExecFns;

verus! {

/// A storage deal for one shard. `created_at` is in milliseconds since the
/// Unix epoch.
pub struct StorageDeal {
    pub deal_id: String,
    pub content_cid: String,
    pub size: u64,
    pub emergency: bool,
    pub provider: String,
    pub created_at: i64,
    pub retrieval_url: Option<String>,
}

/// Where the shards of one message were stored. `created_at` is in
/// milliseconds since the Unix epoch.
pub struct StorageManifest {
    pub message_id: String,
    pub shard_deals: Vec<StorageDeal>,
    pub threshold_needed: usize,
    pub emergency: bool,
    pub created_at: i64,
    pub manifest_cid: String,
}

/// A message split into shards. `timestamp` is in milliseconds since the
/// Unix epoch.
pub struct ThresholdMessage {
    pub message_id: String,
    pub encrypted_shards: Vec<Vec<u8>>,
    pub threshold: usize,
    pub total_shards: usize,
    pub emergency: bool,
    pub sender: String,
    pub timestamp: i64,
}

/// The contents of a [`ThresholdMessage`].
pub struct ThresholdMessageView {
    pub message_id: Seq<char>,
    pub encrypted_shards: Seq<Seq<u8>>,
    pub threshold: usize,
    pub total_shards: usize,
    pub emergency: bool,
    pub sender: Seq<char>,
    pub timestamp: i64,
}

impl View for ThresholdMessage {
    type V = ThresholdMessageView;

    open spec fn view(&self) -> ThresholdMessageView {
        ThresholdMessageView {
            message_id: self.message_id@,
            encrypted_shards: self.encrypted_shards@.map_values(|s: Vec<u8>| s@),
            threshold: self.threshold,
            total_shards: self.total_shards,
            emergency: self.emergency,
            sender: self.sender@,
            timestamp: self.timestamp,
        }
    }
}

/// A copy of a byte vector.
pub fn copy_bytes(v: &Vec<u8>) -> (res: Vec<u8>)
    ensures
        res@ == v@,
{
    let mut res: Vec<u8> = Vec::new();
    let mut k: usize = 0;
    while k < v.len()
        invariant
            k <= v@.len(),
            res@ == v@.take(k as int),
        decreases v.len() - k,
    {
        res.push(v[k]);
        k = k + 1;
        assert(v@.take(k as int) == v@.take(k - 1).push(v@[k - 1]));
    }
    assert(v@.take(v@.len() as int) == v@);
    res
}

/// A copy of a list of shards.
pub fn copy_shards(shards: &Vec<Vec<u8>>) -> (res: Vec<Vec<u8>>)
    ensures
        res@.map_values(|s: Vec<u8>| s@) == shards@.map_values(|s: Vec<u8>| s@),
{
    let mut res: Vec<Vec<u8>> = Vec::new();
    let mut k: usize = 0;
    while k < shards.len()
        invariant
            k <= shards@.len(),
            res@.len() == k,
            forall|j: int| 0 <= j < k ==> #[trigger] res@[j]@ == shards@[j]@,
        decreases shards.len() - k,
    {
        res.push(copy_bytes(&shards[k]));
        k = k + 1;
    }
    assert(res@.map_values(|s: Vec<u8>| s@) =~= shards@.map_values(|s: Vec<u8>| s@));
    res
}

impl ThresholdMessage {
    /// A copy of the message.
    pub fn duplicate(&self) -> (res: Self)
        ensures
            res@ == self@,
    {
        ThresholdMessage {
            message_id: self.message_id.clone(),
            encrypted_shards: copy_shards(&self.encrypted_shards),
            threshold: self.threshold,
            total_shards: self.total_shards,
            emergency: self.emergency,
            sender: self.sender.clone(),
            timestamp: self.timestamp,
        }
    }
}

/// The result of probing the storage service. `last_check` is in
/// milliseconds since the Unix epoch; `latency` in milliseconds.
pub struct FilecoinStatus {
    pub connected: bool,
    pub network: String,
    pub latency: Option<u64>,
    pub last_check: i64,
}

/// Errors of the storage layer.
pub enum FilecoinError {
    ConnectionError(String),
    StorageError(String),
    RetrievalError(String),
    SerializationError(String),
    ThresholdError(String),
}

impl FilecoinError {
    /// The human-readable text of the error.
    pub open spec fn spec_text(&self) -> Seq<char> {
        match self {
            FilecoinError::ConnectionError(m) => "Connection error: "@ + m@,
            FilecoinError::StorageError(m) => "Storage error: "@ + m@,
            FilecoinError::RetrievalError(m) => "Retrieval error: "@ + m@,
            FilecoinError::SerializationError(m) => "Serialization error: "@ + m@,
            FilecoinError::ThresholdError(m) => "Threshold error: "@ + m@,
        }
    }

    /// Renders the error as text, e.g. `Threshold error: <detail>`.
    pub fn text(&self) -> (res: String)
        ensures
            res@ == self.spec_text(),
    {
        let (prefix, m) = match self {
            FilecoinError::ConnectionError(m) => ("Connection error: ", m),
            FilecoinError::StorageError(m) => ("Storage error: ", m),
            FilecoinError::RetrievalError(m) => ("Retrieval error: ", m),
            FilecoinError::SerializationError(m) => ("Serialization error: ", m),
            FilecoinError::ThresholdError(m) => ("Threshold error: ", m),
        };
        let mut s = String::from_str(prefix);
        s.append(m.as_str());
        s
    }
}

} // verus!
