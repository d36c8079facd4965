//! The storage client's decisions: status and routing mode, where shards are
//! stored, the local fallback, retrieval through the emergency cache, and the
//! text encoding of shards for the storage service.

use vstd::prelude::*;
use vstd::string::StringExecFns;
use crate::text::{decimal, push_decimal};
use crate::fresh::now_millis;
use super::types::{FilecoinError, FilecoinStatus, StorageDeal, StorageManifest, ThresholdMessage};
use super::storage::{EmergencyCache, ThresholdStorage, joined, views, too_few_shards_text};

verus! {

#[verifier::external_type_specification]
#[verifier::external_body]
pub struct ExDecodeError(base64::DecodeError);

/// Digit `n` (0..64) of the standard base64 alphabet.
pub open spec fn base64_digit(n: int) -> char {
    "ABCDEFGHIJKLMNOPQRSTUVWXYZabcdefghijklmnopqrstuvwxyz0123456789+/"@[n]
}

/// The standard base64 text of some bytes: each group of three bytes
/// becomes four digits of six bits each, high bits first; a last group of
/// one or two bytes is padded with zero bits and `=`.
pub open spec fn base64_encoding(data: Seq<u8>) -> Seq<char>
    decreases data.len(),
{
    let x = data[0] as int;
    let y = data[1] as int;
    let z = data[2] as int;
    if data.len() == 0 {
        Seq::empty()
    } else if data.len() == 1 {
        seq![base64_digit(x / 4), base64_digit((x % 4) * 16), '=', '=']
    } else if data.len() == 2 {
        seq![base64_digit(x / 4), base64_digit((x % 4) * 16 + y / 16), base64_digit((y % 16) * 4), '=']
    } else {
        seq![base64_digit(x / 4), base64_digit((x % 4) * 16 + y / 16), base64_digit((y % 16) * 4 + z / 64),
            base64_digit(z % 64)] + base64_encoding(data.skip(3))
    }
}

/// The bytes that a base64 text stands for, if it is valid base64.
pub uninterp spec fn base64_decoding(text: Seq<char>) -> Option<Seq<u8>>;

/// Standard base64 text of `data` (`base64::encode`); decoding that text
/// gives `data` back.
#[verifier::external_body]
fn base64_encode(data: &[u8]) -> (res: String)
    ensures
        res@ == base64_encoding(data@),
        base64_decoding(res@) == Some(data@),
{
    base64::encode(data)
}

/// The bytes of a standard base64 text (`base64::decode`), or an error when
/// the text is not valid base64.
#[verifier::external_body]
fn base64_decode(text: &str) -> (res: Result<Vec<u8>, base64::DecodeError>)
    ensures
        res is Ok <==> base64_decoding(text@) is Some,
        res matches Ok(v) ==> Some(v@) == base64_decoding(text@),
{
    base64::decode(text)
}

/// The text of a base64 decoding error (its `Display`).
#[verifier::external_body]
fn decode_error_text(e: &base64::DecodeError) -> String {
    e.to_string()
}

/// The shards that a list of base64 texts stands for, if every text is
/// valid base64.
pub open spec fn decode_all(texts: Seq<Seq<char>>) -> Option<Seq<Seq<u8>>> {
    if forall|i: int| 0 <= i < texts.len() ==> #[trigger] base64_decoding(texts[i]) is Some {
        Some(Seq::new(texts.len(), |i: int| base64_decoding(texts[i]).unwrap()))
    } else {
        None
    }
}

/// The outcome of asking the storage service for its status.
pub enum StatusProbe {
    /// The service could not be reached.
    Unreachable,
    /// The service answered after `elapsed_ms` milliseconds; `status_line`
    /// is the HTTP status as text (e.g. `404 Not Found`) and `body` the
    /// answer's text.
    Responded { success: bool, elapsed_ms: u64, status_line: String, body: String },
}

/// How an exchange with the storage service went wrong.
pub enum ExchangeFailure {
    /// The request did not get through; the text describes why.
    Unreachable(String),
    /// The service answered with a failure status (as text, e.g.
    /// `500 Internal Server Error`) and this body.
    Refused { status_line: String, body: String },
    /// The answer could not be read; the text describes why.
    Unreadable(String),
}

/// The text `HTTP <status>: <body>` for a failure answer.
pub open spec fn http_failure_text(status_line: Seq<char>, body: Seq<char>) -> Seq<char> {
    "HTTP "@ + status_line + ": "@ + body
}

/// The routing mode that a storage status calls for.
pub open spec fn routing_mode_text(status: FilecoinStatus) -> Seq<char> {
    if status.connected {
        match status.latency {
            Some(l) => if l < 100 { "FULL_ONLINE"@ } else if l < 500 { "DEGRADED_ONLINE"@ } else { "SLOW_ONLINE"@ },
            None => "UNKNOWN_ONLINE"@,
        }
    } else {
        "OFFLINE"@
    }
}

/// Law: the storage service's status decides the routing mode: a service
/// that is not connected means `OFFLINE` whatever the latency; a connected
/// one is `FULL_ONLINE` below 100 ms, `DEGRADED_ONLINE` below 500 ms,
/// `SLOW_ONLINE` from 500 ms on, and `UNKNOWN_ONLINE` with no latency
/// measured.
pub proof fn lemma_routing_modes(status: FilecoinStatus)
    ensures
        !status.connected ==> routing_mode_text(status) == "OFFLINE"@,
        status.connected && status.latency is None ==> routing_mode_text(status) == "UNKNOWN_ONLINE"@,
        status.connected ==> (status.latency matches Some(l) && l < 100 ==> routing_mode_text(status) == "FULL_ONLINE"@),
        status.connected ==> (status.latency matches Some(l) && 100 <= l < 500
            ==> routing_mode_text(status) == "DEGRADED_ONLINE"@),
        status.connected ==> (status.latency matches Some(l) && l >= 500 ==> routing_mode_text(status) == "SLOW_ONLINE"@),
{
}

/// The id of the placeholder deal for shard `i` of a message stored
/// locally.
pub open spec fn local_deal_id(message_id: Seq<char>, i: nat) -> Seq<char> {
    "local-"@ + message_id + "-"@ + decimal(i)
}

/// Law: the placeholder deals of distinct shards of one message have
/// distinct deal ids and distinct content ids, each ending in the shard's
/// number.
pub proof fn lemma_local_ids_distinct(message_id: Seq<char>, i: nat, j: nat)
    requires
        i != j,
    ensures
        local_deal_id(message_id, i) != local_deal_id(message_id, j),
        local_content_cid(message_id, i) != local_content_cid(message_id, j),
        local_deal_id(message_id, i).skip(("local-"@ + message_id + "-"@).len() as int) == decimal(i),
{
    let p = "local-"@ + message_id + "-"@;
    let q = "local-cid-"@ + message_id + "-"@;
    assert((p + decimal(i)).skip(p.len() as int) =~= decimal(i));
    assert((p + decimal(j)).skip(p.len() as int) =~= decimal(j));
    assert((q + decimal(i)).skip(q.len() as int) =~= decimal(i));
    assert((q + decimal(j)).skip(q.len() as int) =~= decimal(j));
    assert(local_deal_id(message_id, i) == p + decimal(i));
    assert(local_content_cid(message_id, i) == q + decimal(i));
    if local_deal_id(message_id, i) == local_deal_id(message_id, j) {
        crate::text::lemma_decimal_injective(i, j);
    }
    if local_content_cid(message_id, i) == local_content_cid(message_id, j) {
        crate::text::lemma_decimal_injective(i, j);
    }
}

/// The content id of the placeholder deal for shard `i` of a message stored
/// locally.
pub open spec fn local_content_cid(message_id: Seq<char>, i: nat) -> Seq<char> {
    "local-cid-"@ + message_id + "-"@ + decimal(i)
}

/// The manifest of a message stored only in the local cache: one
/// placeholder deal per shard.
pub open spec fn is_local_manifest(m: StorageManifest, message: ThresholdMessage) -> bool {
    &&& m.message_id@ == message.message_id@
    &&& m.threshold_needed == message.threshold
    &&& m.emergency == message.emergency
    &&& m.created_at == message.timestamp
    &&& m.manifest_cid@ == "local-manifest-"@ + message.message_id@
    &&& m.shard_deals@.len() == message.encrypted_shards@.len()
    &&& forall|i: int| 0 <= i < m.shard_deals@.len() ==> {
        let d = #[trigger] m.shard_deals@[i];
        &&& d.deal_id@ == local_deal_id(message.message_id@, i as nat)
        &&& d.content_cid@ == local_content_cid(message.message_id@, i as nat)
        &&& d.size == message.encrypted_shards@[i]@.len()
        &&& d.emergency == message.emergency
        &&& d.provider@ == "local-cache"@
        &&& d.retrieval_url is None
    }
}

/// What the client's state and decisions rest on; the HTTP transport is the
/// caller's.
pub struct FilecoinClient {
    pub base_url: String,
    pub threshold_storage: ThresholdStorage,
    pub emergency_cache: EmergencyCache,
    pub connection_timeout_secs: u64,
}

impl FilecoinClient {
    /// A client for the service at `base_url`, splitting messages into
    /// `total_shards` shards of which `threshold` reassemble them, with an
    /// emergency cache for 100 messages and a 10-second status timeout.
    pub fn new(base_url: String, threshold: usize, total_shards: usize) -> (res: Self)
        ensures
            res.base_url == base_url,
            res.threshold_storage.threshold == threshold,
            res.threshold_storage.total_shards == total_shards,
            res.emergency_cache.wf(),
            res.emergency_cache.messages() == Map::<Seq<char>, ThresholdMessage>::empty(),
            res.emergency_cache.limit() == 100,
            res.connection_timeout_secs == 10,
    {
        FilecoinClient {
            base_url,
            threshold_storage: ThresholdStorage::new(threshold, total_shards),
            emergency_cache: EmergencyCache::new(100),
            connection_timeout_secs: 10,
        }
    }

    /// The storage status after probing the service: unreachable means
    /// disconnected; a success answer means connected, with the elapsed time
    /// as latency; any other answer is a `ConnectionError` of the form
    /// `HTTP <status>: <body>`.
    pub fn check_status(&self, probe: StatusProbe) -> (res: Result<FilecoinStatus, FilecoinError>)
        ensures
            match probe {
                StatusProbe::Unreachable => res matches Ok(s) && !s.connected && s.latency is None
                    && s.network@ == "filecoin"@,
                StatusProbe::Responded { success, elapsed_ms, status_line, body } => if success {
                    res matches Ok(s) && s.connected && s.latency == Some(elapsed_ms) && s.network@ == "filecoin"@
                } else {
                    res matches Err(FilecoinError::ConnectionError(m))
                        && m@ == http_failure_text(status_line@, body@)
                },
            },
    {
        match probe {
            StatusProbe::Unreachable => Ok(FilecoinStatus {
                connected: false,
                network: String::from_str("filecoin"),
                latency: None,
                last_check: now_millis(),
            }),
            StatusProbe::Responded { success, elapsed_ms, status_line, body } => {
                if success {
                    Ok(FilecoinStatus {
                        connected: true,
                        network: String::from_str("filecoin"),
                        latency: Some(elapsed_ms),
                        last_check: now_millis(),
                    })
                } else {
                    Err(FilecoinError::ConnectionError(Self::http_failure(status_line.as_str(), body.as_str())))
                }
            },
        }
    }

    /// The text `HTTP <status>: <body>`.
    pub fn http_failure(status_line: &str, body: &str) -> (res: String)
        ensures
            res@ == http_failure_text(status_line@, body@),
    {
        let mut m = String::from_str("HTTP ");
        m.append(status_line);
        m.append(": ");
        m.append(body);
        m
    }

    /// The error for a failed attempt to store shards: a request that did
    /// not get through or was refused is a `StorageError`, an answer that
    /// could not be read a `SerializationError`.
    pub fn storage_error(failure: ExchangeFailure) -> (res: FilecoinError)
        ensures
            match failure {
                ExchangeFailure::Unreachable(t) => res == FilecoinError::StorageError(t),
                ExchangeFailure::Refused { status_line, body } => res matches FilecoinError::StorageError(m)
                    && m@ == http_failure_text(status_line@, body@),
                ExchangeFailure::Unreadable(t) => res == FilecoinError::SerializationError(t),
            },
    {
        match failure {
            ExchangeFailure::Unreachable(t) => FilecoinError::StorageError(t),
            ExchangeFailure::Refused { status_line, body } =>
                FilecoinError::StorageError(Self::http_failure(status_line.as_str(), body.as_str())),
            ExchangeFailure::Unreadable(t) => FilecoinError::SerializationError(t),
        }
    }

    /// The error for a failed attempt to fetch shards: a request that did
    /// not get through or was refused is a `RetrievalError`, an answer that
    /// could not be read a `SerializationError`.
    pub fn retrieval_error(failure: ExchangeFailure) -> (res: FilecoinError)
        ensures
            match failure {
                ExchangeFailure::Unreachable(t) => res == FilecoinError::RetrievalError(t),
                ExchangeFailure::Refused { status_line, body } => res matches FilecoinError::RetrievalError(m)
                    && m@ == http_failure_text(status_line@, body@),
                ExchangeFailure::Unreadable(t) => res == FilecoinError::SerializationError(t),
            },
    {
        match failure {
            ExchangeFailure::Unreachable(t) => FilecoinError::RetrievalError(t),
            ExchangeFailure::Refused { status_line, body } =>
                FilecoinError::RetrievalError(Self::http_failure(status_line.as_str(), body.as_str())),
            ExchangeFailure::Unreadable(t) => FilecoinError::SerializationError(t),
        }
    }

    /// The error for an answer to a shard request that carries no list of
    /// shards: `SerializationError("Invalid response format")`.
    pub fn missing_shards_error() -> (res: FilecoinError)
        ensures
            res matches FilecoinError::SerializationError(m) && m@ == "Invalid response format"@,
    {
        FilecoinError::SerializationError(String::from_str("Invalid response format"))
    }

    /// Stores a message: an emergency message is first put in the emergency
    /// cache; then the manifest from the storage service is the answer, or,
    /// when the service failed, a manifest of local placeholder deals.
    pub fn store_threshold_message(
        &mut self,
        message: ThresholdMessage,
        service_outcome: Result<StorageManifest, FilecoinError>,
    ) -> (res: Result<StorageManifest, FilecoinError>)
        requires
            old(self).emergency_cache.wf(),
        ensures
            final(self).emergency_cache.wf(),
            final(self).emergency_cache.limit() == old(self).emergency_cache.limit(),
            final(self).base_url == old(self).base_url,
            final(self).threshold_storage == old(self).threshold_storage,
            final(self).connection_timeout_secs == old(self).connection_timeout_secs,
            message.emergency ==> final(self).emergency_cache.messages().dom().contains(message.message_id@)
                && final(self).emergency_cache.messages()[message.message_id@]@ == message@
                && final(self).emergency_cache.messages() == (if old(self).emergency_cache.entries().len()
                    >= old(self).emergency_cache.limit() && old(self).emergency_cache.entries().len() > 0 {
                    old(self).emergency_cache.messages().remove(old(self).emergency_cache.ids()[0])
                } else {
                    old(self).emergency_cache.messages()
                }).insert(message.message_id@, final(self).emergency_cache.messages()[message.message_id@]),
            !message.emergency ==> final(self).emergency_cache == old(self).emergency_cache,
            match service_outcome {
                Ok(m) => res == Ok::<StorageManifest, FilecoinError>(m),
                Err(_) => res matches Ok(m) && is_local_manifest(m, message),
            },
    {
        if message.emergency {
            let copy = message.duplicate();
            self.emergency_cache.cache_message(copy);
        }
        match service_outcome {
            Ok(manifest) => Ok(manifest),
            Err(_) => self.create_local_manifest(message),
        }
    }

    /// A manifest of local placeholder deals, one per shard, for a message
    /// the storage service did not take.
    pub fn create_local_manifest(&self, message: ThresholdMessage) -> (res: Result<StorageManifest, FilecoinError>)
        ensures
            res matches Ok(m) && is_local_manifest(m, message),
    {
        let mut shard_deals: Vec<StorageDeal> = Vec::new();
        let n: usize = message.encrypted_shards.len();
        let mut i: usize = 0;
        while i < n
            invariant
                n == message.encrypted_shards@.len(),
                i <= n,
                shard_deals@.len() == i,
                forall|j: int| 0 <= j < i ==> {
                    let d = #[trigger] shard_deals@[j];
                    &&& d.deal_id@ == local_deal_id(message.message_id@, j as nat)
                    &&& d.content_cid@ == local_content_cid(message.message_id@, j as nat)
                    &&& d.size == message.encrypted_shards@[j]@.len()
                    &&& d.emergency == message.emergency
                    &&& d.provider@ == "local-cache"@
                    &&& d.retrieval_url is None
                },
            decreases n - i,
        {
            let mut deal_id = String::from_str("local-");
            deal_id.append(message.message_id.as_str());
            deal_id.append("-");
            push_decimal(&mut deal_id, i);
            let mut content_cid = String::from_str("local-cid-");
            content_cid.append(message.message_id.as_str());
            content_cid.append("-");
            push_decimal(&mut content_cid, i);
            let size: u64 = message.encrypted_shards[i].len() as u64;
            shard_deals.push(StorageDeal {
                deal_id,
                content_cid,
                size,
                emergency: message.emergency,
                provider: String::from_str("local-cache"),
                created_at: now_millis(),
                retrieval_url: None,
            });
            i = i + 1;
        }
        let mut manifest_cid = String::from_str("local-manifest-");
        manifest_cid.append(message.message_id.as_str());
        Ok(StorageManifest {
            message_id: message.message_id.clone(),
            shard_deals,
            threshold_needed: message.threshold,
            emergency: message.emergency,
            created_at: message.timestamp,
            manifest_cid,
        })
    }

    /// The manifest for shards the storage service took, from the deals it
    /// answered with.
    pub fn service_manifest(message: &ThresholdMessage, deals: Vec<StorageDeal>) -> (res: StorageManifest)
        ensures
            res.message_id@ == message.message_id@,
            res.shard_deals == deals,
            res.threshold_needed == message.threshold,
            res.emergency == message.emergency,
            res.created_at == message.timestamp,
            res.manifest_cid@ == "manifest-"@ + message.message_id@,
    {
        let mut manifest_cid = String::from_str("manifest-");
        manifest_cid.append(message.message_id.as_str());
        StorageManifest {
            message_id: message.message_id.clone(),
            shard_deals: deals,
            threshold_needed: message.threshold,
            emergency: message.emergency,
            created_at: message.timestamp,
            manifest_cid,
        }
    }

    /// The base64 text of each shard, for transport to the storage service;
    /// decoding all of them gives the shards back.
    pub fn encode_shards(shards: &Vec<Vec<u8>>) -> (res: Vec<String>)
        ensures
            res@.len() == shards@.len(),
            forall|i: int| 0 <= i < shards@.len() ==> #[trigger] res@[i]@ == base64_encoding(shards@[i]@),
            decode_all(res@.map_values(|s: String| s@)) == Some(views(shards@)),
    {
        let mut res: Vec<String> = Vec::new();
        let mut i: usize = 0;
        while i < shards.len()
            invariant
                i <= shards@.len(),
                res@.len() == i,
                forall|j: int| 0 <= j < i ==> #[trigger] res@[j]@ == base64_encoding(shards@[j]@),
                forall|j: int| 0 <= j < i ==> #[trigger] base64_decoding(res@[j]@) == Some(shards@[j]@),
            decreases shards.len() - i,
        {
            res.push(base64_encode(shards[i].as_slice()));
            i = i + 1;
        }
        let ghost texts = res@.map_values(|s: String| s@);
        assert(forall|j: int| 0 <= j < texts.len() ==> #[trigger] base64_decoding(texts[j]) == Some(shards@[j]@));
        assert(Seq::new(texts.len(), |j: int| base64_decoding(texts[j]).unwrap()) =~= views(shards@));
        res
    }

    /// The shards that base64 texts from the storage service stand for; the
    /// first text that is not valid base64 gives a `SerializationError`.
    pub fn decode_shards(texts: &Vec<String>) -> (res: Result<Vec<Vec<u8>>, FilecoinError>)
        ensures
            match decode_all(texts@.map_values(|s: String| s@)) {
                Some(shards) => res matches Ok(v) && views(v@) == shards,
                None => res matches Err(e) && e is SerializationError,
            },
    {
        let ghost all = texts@.map_values(|s: String| s@);
        let mut shards: Vec<Vec<u8>> = Vec::new();
        let mut i: usize = 0;
        while i < texts.len()
            invariant
                all == texts@.map_values(|s: String| s@),
                i <= texts@.len(),
                shards@.len() == i,
                forall|j: int| 0 <= j < i ==> #[trigger] base64_decoding(all[j]) == Some(shards@[j]@),
            decreases texts.len() - i,
        {
            match base64_decode(texts[i].as_str()) {
                Ok(v) => shards.push(v),
                Err(e) => {
                    assert(base64_decoding(all[i as int]) is None);
                    return Err(FilecoinError::SerializationError(decode_error_text(&e)));
                },
            }
            i = i + 1;
        }
        assert(forall|j: int| 0 <= j < all.len() ==> #[trigger] base64_decoding(all[j]) is Some);
        assert(Seq::new(all.len(), |j: int| base64_decoding(all[j]).unwrap()) =~= views(shards@));
        Ok(shards)
    }

    /// The message's data from the emergency cache, reassembled from the
    /// cached shards, or `None` when the message is not cached (and the
    /// storage service has to be asked).
    pub fn retrieve_from_cache(&self, manifest: &StorageManifest) -> (res: Option<Result<Vec<u8>, FilecoinError>>)
        requires
            self.emergency_cache.wf(),
        ensures
            !self.emergency_cache.messages().dom().contains(manifest.message_id@) <==> res is None,
            res matches Some(r) ==> {
                let cached = self.emergency_cache.messages()[manifest.message_id@];
                let shards = cached@.encrypted_shards;
                &&& shards.len() < self.threshold_storage.threshold ==> (r matches Err(FilecoinError::ThresholdError(m))
                    && m@ == too_few_shards_text(self.threshold_storage.threshold as nat, shards.len()))
                &&& shards.len() >= self.threshold_storage.threshold ==> (r matches Ok(v) && v@ == joined(shards.take(
                    if shards.len() < self.threshold_storage.total_shards { shards.len() as int }
                    else { self.threshold_storage.total_shards as int })))
            },
    {
        match self.emergency_cache.get_cached_message(manifest.message_id.as_str()) {
            Some(cached) => Some(self.threshold_storage.reconstruct_from_shards(cached.encrypted_shards.as_slice())),
            None => None,
        }
    }

    /// The message's data: from the emergency cache when it is cached,
    /// otherwise reassembled from the shards the storage service returned
    /// (`fetched`), whose failure is passed on.
    pub fn retrieve_threshold_message(
        &self,
        manifest: &StorageManifest,
        fetched: Result<Vec<Vec<u8>>, FilecoinError>,
    ) -> (res: Result<Vec<u8>, FilecoinError>)
        requires
            self.emergency_cache.wf(),
        ensures
            self.emergency_cache.messages().dom().contains(manifest.message_id@) ==> {
                let shards = self.emergency_cache.messages()[manifest.message_id@]@.encrypted_shards;
                &&& shards.len() < self.threshold_storage.threshold ==> (res matches Err(FilecoinError::ThresholdError(m))
                    && m@ == too_few_shards_text(self.threshold_storage.threshold as nat, shards.len()))
                &&& shards.len() >= self.threshold_storage.threshold ==> (res matches Ok(v) && v@ == joined(shards.take(
                    if shards.len() < self.threshold_storage.total_shards { shards.len() as int }
                    else { self.threshold_storage.total_shards as int })))
            },
            !self.emergency_cache.messages().dom().contains(manifest.message_id@) ==> match fetched {
                Ok(shards) => {
                    let s = views(shards@);
                    &&& s.len() < self.threshold_storage.threshold ==> (res matches Err(FilecoinError::ThresholdError(m))
                        && m@ == too_few_shards_text(self.threshold_storage.threshold as nat, s.len()))
                    &&& s.len() >= self.threshold_storage.threshold ==> (res matches Ok(v) && v@ == joined(s.take(
                        if s.len() < self.threshold_storage.total_shards { s.len() as int }
                        else { self.threshold_storage.total_shards as int })))
                },
                Err(e) => res == Err::<Vec<u8>, FilecoinError>(e),
            },
    {
        match self.retrieve_from_cache(manifest) {
            Some(r) => r,
            None => match fetched {
                Ok(shards) => self.threshold_storage.reconstruct_from_shards(shards.as_slice()),
                Err(e) => Err(e),
            },
        }
    }

    /// The number of cached emergency messages and their ids, oldest first.
    pub fn get_emergency_cache_status(&self) -> (res: (usize, Vec<String>))
        requires
            self.emergency_cache.wf(),
        ensures
            res.0 == self.emergency_cache.ids().len(),
            res.1@.map_values(|s: String| s@) == self.emergency_cache.ids(),
    {
        let cached_messages = self.emergency_cache.list_cached_messages();
        (cached_messages.len(), cached_messages)
    }

    /// Switches emergency broadcast mode: switching it off empties the
    /// emergency cache; switching it on changes nothing. Always succeeds.
    pub fn emergency_broadcast_mode(&mut self, enabled: bool) -> (res: Result<(), FilecoinError>)
        ensures
            res is Ok,
            enabled ==> *final(self) == *old(self),
            !enabled ==> final(self).emergency_cache.wf()
                && final(self).emergency_cache.messages() == Map::<Seq<char>, ThresholdMessage>::empty()
                && final(self).emergency_cache.limit() == old(self).emergency_cache.limit(),
            final(self).base_url == old(self).base_url,
            final(self).threshold_storage == old(self).threshold_storage,
            final(self).connection_timeout_secs == old(self).connection_timeout_secs,
    {
        if !enabled {
            self.emergency_cache.clear_cache();
        }
        Ok(())
    }

    /// The routing mode for the storage status: `FULL_ONLINE` under 100 ms,
    /// `DEGRADED_ONLINE` under 500 ms, `SLOW_ONLINE` otherwise,
    /// `UNKNOWN_ONLINE` without a latency, `OFFLINE` when disconnected; a
    /// failed status check is passed on.
    pub fn adaptive_routing_check(&self, status: Result<FilecoinStatus, FilecoinError>) -> (res: Result<String, FilecoinError>)
        ensures
            match status {
                Ok(s) => res matches Ok(mode) && mode@ == routing_mode_text(s),
                Err(e) => res == Err::<String, FilecoinError>(e),
            },
    {
        let status = match status {
            Ok(s) => s,
            Err(e) => return Err(e),
        };
        let mode = if status.connected {
            match status.latency {
                Some(latency) => if latency < 100 {
                    "FULL_ONLINE"
                } else if latency < 500 {
                    "DEGRADED_ONLINE"
                } else {
                    "SLOW_ONLINE"
                },
                None => "UNKNOWN_ONLINE",
            }
        } else {
            "OFFLINE"
        };
        Ok(String::from_str(mode))
    }
}

} // verus!
