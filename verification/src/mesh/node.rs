//! A mesh node's reaction to what it sends and receives. The node keeps the
//! ids of the messages it has seen, the encrypted messages waiting for
//! decryption, its own decryption share of each and the shares collected
//! from other nodes; each step answers with the actions for the network and
//! the user.

use vstd::prelude::*;
use crate::keyed::KeyedTable;
use crate::filecoin::types::copy_bytes;
use crate::fresh::{new_message_id, new_unseen_id, now_millis};
use crate::crypto::threshold::{
    CryptoError, DecryptionShare, ThresholdCrypto, share_view, shares_view, ciphertext_decodes, info_text,
};
use crate::crypto::keys::ciphertext_verifies;
use crate::crypto::message::{EncryptedMessage, ShareRequest, ShareResponse};

verus! {

/// A plain-text message flooding through the mesh. `timestamp` is in
/// milliseconds since the Unix epoch.
pub struct PhoenixMessage {
    pub id: String,
    pub sender: String,
    pub content: Vec<u8>,
    pub timestamp: i64,
    pub ttl: u32,
    pub hop_count: u32,
}

impl PhoenixMessage {
    /// A message from `sender` with a fresh id, the current time and no
    /// hops taken yet.
    pub fn new(sender: String, content: Vec<u8>, initial_ttl: u32) -> (res: Self)
        ensures
            res.id@.len() == 36,
            crate::fresh::is_random_uuid_text(res.id@),
            res.sender == sender,
            res.content == content,
            res.ttl == initial_ttl,
            res.hop_count == 0,
    {
        PhoenixMessage {
            id: new_message_id(),
            sender,
            content,
            timestamp: now_millis(),
            ttl: initial_ttl,
            hop_count: 0,
        }
    }

    /// Takes one hop: while hops remain, the ttl drops by one, the hop count
    /// rises by one and the answer is `true`; with none left, nothing changes
    /// and the answer is `false`. Either way `ttl + hop_count` is unchanged.
    pub fn decrement_ttl(&mut self) -> (res: bool)
        requires
            old(self).ttl > 0 ==> old(self).hop_count < u32::MAX,
        ensures
            res == (old(self).ttl > 0),
            res ==> final(self).ttl == old(self).ttl - 1 && final(self).hop_count == old(self).hop_count + 1,
            !res ==> final(self).ttl == old(self).ttl && final(self).hop_count == old(self).hop_count,
            final(self).ttl + final(self).hop_count == old(self).ttl + old(self).hop_count,
            (final(self).ttl as int, final(self).hop_count as int) == crate::crypto::message::hop_step(
                old(self).ttl as int, old(self).hop_count as int),
            final(self).id == old(self).id,
            final(self).sender == old(self).sender,
            final(self).content == old(self).content,
            final(self).timestamp == old(self).timestamp,
    {
        if self.ttl > 0 {
            self.ttl = self.ttl - 1;
            self.hop_count = self.hop_count + 1;
            true
        } else {
            false
        }
    }
}

/// What travels between nodes.
pub enum PhoenixMessageType {
    PlainText(PhoenixMessage),
    Encrypted(EncryptedMessage),
    ShareRequest(ShareRequest),
    ShareResponse(ShareResponse),
}

/// What the node asks of the network and the user after a step.
pub enum NodeAction {
    /// Publish this message to the mesh.
    Publish(PhoenixMessageType),
    /// Show a plain-text message to the user.
    Deliver { sender: String, content: Vec<u8> },
    /// A pending message was decrypted.
    Decrypted { message_id: String, sender: String, plaintext: String },
    /// Combining the shares of a pending message failed.
    DecryptionFailed { message_id: String, error: CryptoError },
    /// This node could not make its decryption share of a message.
    ShareFailed { message_id: String, error: CryptoError },
}

/// The share count of one pending message, for display.
pub struct ShareStatus {
    pub message_id: String,
    pub shares: usize,
    pub threshold: usize,
    pub sender: String,
}

/// A copy of a list of decryption shares.
fn duplicate_shares(v: &Vec<DecryptionShare>) -> (res: Vec<DecryptionShare>)
    ensures
        shares_view(res@) == shares_view(v@),
{
    let mut res: Vec<DecryptionShare> = Vec::new();
    let mut i: usize = 0;
    while i < v.len()
        invariant
            i <= v@.len(),
            res@.len() == i,
            forall|j: int| 0 <= j < i ==> share_view(#[trigger] res@[j]) == share_view(v@[j]),
        decreases v.len() - i,
    {
        res.push(v[i].duplicate());
        i = i + 1;
    }
    assert(shares_view(res@) =~= shares_view(v@));
    res
}

/// A mesh node's state, without the network it runs on.
pub struct PhoenixNode {
    local_peer_id: String,
    seen_messages: KeyedTable<()>,
    crypto: ThresholdCrypto,
    pending_encrypted_messages: KeyedTable<EncryptedMessage>,
    my_decryption_shares: KeyedTable<DecryptionShare>,
    _node_name: String,
    collected_shares: KeyedTable<Vec<DecryptionShare>>,
}

impl PhoenixNode {
    /// This node's peer id.
    pub closed spec fn peer_id(&self) -> Seq<char> {
        self.local_peer_id@
    }

    /// This node's display name.
    pub closed spec fn name(&self) -> Seq<char> {
        self._node_name@
    }

    /// The threshold key of this node.
    pub closed spec fn key(&self) -> ThresholdCrypto {
        self.crypto
    }

    /// The ids of the messages this node has seen.
    pub closed spec fn seen(&self) -> Set<Seq<char>> {
        self.seen_messages.as_map().dom()
    }

    /// Encrypted messages waiting for decryption, by id.
    pub closed spec fn pending(&self) -> Map<Seq<char>, EncryptedMessage> {
        self.pending_encrypted_messages.as_map()
    }

    /// This node's own decryption share of each pending message, by id.
    pub closed spec fn my_shares(&self) -> Map<Seq<char>, DecryptionShare> {
        self.my_decryption_shares.as_map()
    }

    /// Shares received from other nodes, by message id, in arrival order.
    pub closed spec fn collected(&self) -> Map<Seq<char>, Vec<DecryptionShare>> {
        self.collected_shares.as_map()
    }

    /// The tables' invariants, and: this node holds its own share of
    /// exactly the messages it keeps pending.
    pub closed spec fn wf(&self) -> bool {
        &&& self.pending_encrypted_messages.as_map().dom() == self.my_decryption_shares.as_map().dom()
        &&& self.seen_messages.wf()
        &&& self.pending_encrypted_messages.wf()
        &&& self.my_decryption_shares.wf()
        &&& self.collected_shares.wf()
    }

    /// How many shares of message `id` this node holds: its own, if any,
    /// and those collected from others.
    pub open spec fn share_count(&self, id: Seq<char>) -> int {
        (if self.my_shares().dom().contains(id) { 1int } else { 0int })
            + (if self.collected().dom().contains(id) { self.collected()[id]@.len() as int } else { 0int })
    }

    /// The shares of message `id` collected from other nodes, as plain
    /// values in arrival order.
    pub open spec fn collected_of(&self, id: Seq<char>) -> Seq<(usize, Seq<u8>)> {
        if self.collected().dom().contains(id) { shares_view(self.collected()[id]@) } else { Seq::empty() }
    }

    /// The shares of message `id` that this node holds, as plain values:
    /// its own first, if any, then the collected ones.
    pub open spec fn held_shares(&self, id: Seq<char>) -> Seq<(usize, Seq<u8>)> {
        (if self.my_shares().dom().contains(id) { seq![share_view(self.my_shares()[id])] } else { Seq::empty() })
            + self.collected_of(id)
    }

    /// What combining the held shares of pending message `id` yields.
    pub open spec fn decryption_of(&self, id: Seq<char>) -> Option<Seq<char>> {
        self.key().combined_text(self.pending()[id].encrypted_content@, self.held_shares(id))
    }

    /// What combining the held shares of pending message `id`, followed by
    /// `share`, yields.
    pub open spec fn decryption_with(&self, id: Seq<char>, share: DecryptionShare) -> Option<Seq<char>> {
        self.key().combined_text(self.pending()[id].encrypted_content@, self.held_shares(id).push(share_view(share)))
    }

    /// Whether bytes are a ciphertext of which a decryption share can be
    /// made: they decode, and the ciphertext verifies.
    pub open spec fn valid_ciphertext(ct: Seq<u8>) -> bool {
        ciphertext_decodes(ct) && ciphertext_verifies(ct)
    }

    /// Whether, after making its share of new encrypted message `m`, this
    /// node holds `m` pending with at least a threshold of shares, so that
    /// it tries to decrypt.
    pub open spec fn decrypts_after_share(&self, m: EncryptedMessage) -> bool {
        &&& Self::valid_ciphertext(m.encrypted_content@) || self.pending().dom().contains(m.id@)
        &&& self.held_after_share(m.id@, m.encrypted_content@).len() >= self.key().threshold
    }

    /// What that attempt yields: the combination of the shares held then,
    /// for the ciphertext then pending under `m`'s id.
    pub open spec fn decryption_after_share(&self, m: EncryptedMessage) -> Option<Seq<char>> {
        let ct = if Self::valid_ciphertext(m.encrypted_content@) {
            m.encrypted_content@
        } else {
            self.pending()[m.id@].encrypted_content@
        };
        self.key().combined_text(ct, self.held_after_share(m.id@, m.encrypted_content@))
    }

    /// The sender of the message then pending under `m`'s id.
    pub open spec fn sender_after_share(&self, m: EncryptedMessage) -> Seq<char> {
        if Self::valid_ciphertext(m.encrypted_content@) { m.sender@ } else { self.pending()[m.id@].sender@ }
    }

    /// The shares of message `id` this node would hold after making its own
    /// share of ciphertext `ct`: with a valid ciphertext, the new own share
    /// followed by the collected ones; otherwise those it holds already.
    pub open spec fn held_after_share(&self, id: Seq<char>, ct: Seq<u8>) -> Seq<(usize, Seq<u8>)> {
        if Self::valid_ciphertext(ct) {
            seq![(self.key().my_shard_id, self.key().share_of(self.key().key_view().2, ct))] + self.collected_of(id)
        } else {
            self.held_shares(id)
        }
    }

    /// A node with peer id `local_peer_id` and display name `node_name`,
    /// holding key share `shard_id` of the mesh's 3-of-5 key, having seen
    /// nothing yet. Fails with `InvalidShard` exactly when `shard_id >= 5`.
    pub fn new(local_peer_id: String, shard_id: usize, node_name: String) -> (res: Result<Self, CryptoError>)
        ensures
            shard_id >= 5 <==> res is Err,
            res matches Err(e) ==> e is InvalidShard,
            res matches Ok(n) ==> {
                &&& n.wf()
                &&& n.peer_id() == local_peer_id@
                &&& n.name() == node_name@
                &&& n.key().threshold == 3
                &&& n.key().total_shards == 5
                &&& n.key().my_shard_id == shard_id
                &&& n.key().wf()
                &&& n.key().key_view() == (crate::crypto::threshold::shared_seed(), 2usize, shard_id)
                &&& n.seen() == Set::<Seq<char>>::empty()
                &&& n.pending() == Map::<Seq<char>, EncryptedMessage>::empty()
                &&& n.my_shares() == Map::<Seq<char>, DecryptionShare>::empty()
                &&& n.collected() == Map::<Seq<char>, Vec<DecryptionShare>>::empty()
            },
    {
        let crypto = match ThresholdCrypto::generate_keys(3, 5, shard_id) {
            Ok(c) => c,
            Err(e) => return Err(e),
        };
        Ok(Self::with_key(local_peer_id, node_name, crypto))
    }

    /// A node with peer id `local_peer_id`, display name `node_name` and key
    /// `crypto`, having seen nothing yet.
    pub fn with_key(local_peer_id: String, node_name: String, crypto: ThresholdCrypto) -> (res: Self)
        ensures
            res.wf(),
            res.peer_id() == local_peer_id@,
            res.name() == node_name@,
            res.key() == crypto,
            res.seen() == Set::<Seq<char>>::empty(),
            res.pending() == Map::<Seq<char>, EncryptedMessage>::empty(),
            res.my_shares() == Map::<Seq<char>, DecryptionShare>::empty(),
            res.collected() == Map::<Seq<char>, Vec<DecryptionShare>>::empty(),
    {
        let res = PhoenixNode {
            local_peer_id,
            seen_messages: KeyedTable::new(),
            crypto,
            pending_encrypted_messages: KeyedTable::new(),
            my_decryption_shares: KeyedTable::new(),
            _node_name: node_name,
            collected_shares: KeyedTable::new(),
        };
        assert(res.seen() =~= Set::<Seq<char>>::empty());
        assert(res.pending().dom() =~= res.my_shares().dom());
        res
    }

    /// This node's threshold key.
    pub fn crypto(&self) -> (res: &ThresholdCrypto)
        ensures
            *res == self.key(),
    {
        &self.crypto
    }

    /// Whether this node has seen a message with id `id`.
    pub fn has_seen(&self, id: &str) -> (res: bool)
        ensures
            res == self.seen().contains(id@),
    {
        self.seen_messages.contains_key(id)
    }

    /// A description of this node's key.
    pub fn get_crypto_info(&self) -> (res: String)
        ensures
            res@ == info_text(self.key().threshold as nat, self.key().total_shards as nat,
                self.key().my_shard_id as nat, self.key().public_key()),
    {
        self.crypto.get_info()
    }

    /// A plain-text message from this node, to be published. Its id is one
    /// this node has not seen, so no two messages it sends share an id; the
    /// id counts as seen from now on.
    pub fn send_message(&mut self, content: Vec<u8>, ttl: u32) -> (res: PhoenixMessageType)
        requires
            old(self).wf(),
        ensures
            final(self).wf(),
            res matches PhoenixMessageType::PlainText(m) && {
                &&& m.id@.len() == 36
                &&& !old(self).seen().contains(m.id@)
                &&& m.sender@ == old(self).peer_id()
                &&& m.content == content
                &&& m.ttl == ttl
                &&& m.hop_count == 0
                &&& final(self).seen() == old(self).seen().insert(m.id@)
            },
            final(self).peer_id() == old(self).peer_id(),
            final(self).name() == old(self).name(),
            final(self).key() == old(self).key(),
            final(self).pending() == old(self).pending(),
            final(self).my_shares() == old(self).my_shares(),
            final(self).collected() == old(self).collected(),
    {
        let message = PhoenixMessage {
            id: new_unseen_id(&self.seen_messages),
            sender: self.local_peer_id.clone(),
            content,
            timestamp: now_millis(),
            ttl,
            hop_count: 0,
        };
        self.seen_messages.insert(message.id.clone(), ());
        assert(self.seen() =~= old(self).seen().insert(message.id@));
        PhoenixMessageType::PlainText(message)
    }

    /// A threshold-encrypted message from this node, to be published; it
    /// needs this node's threshold of shares. It always succeeds.
    pub fn send_encrypted_message(&self, content: &str, ttl: u32) -> (res: Result<PhoenixMessageType, CryptoError>)
        ensures
            res is Ok,
            res matches Ok(t) ==> (t matches PhoenixMessageType::Encrypted(m) && {
                &&& self.key().encrypts(m.encrypted_content@, content@)
                &&& m.id@.len() == 36
                &&& crate::fresh::is_random_uuid_text(m.id@)
                &&& m.sender@ == self.peer_id()
                &&& m.threshold_needed == self.key().threshold
                &&& m.ttl == ttl
                &&& m.hop_count == 0
            }),
    {
        let encrypted_content = match self.crypto.encrypt_message(content) {
            Ok(c) => c,
            Err(e) => return Err(e),
        };
        let message = EncryptedMessage::new(self.local_peer_id.clone(), encrypted_content, self.crypto.threshold, ttl);
        Ok(PhoenixMessageType::Encrypted(message))
    }

    /// Makes this node's decryption share of an encrypted message. On
    /// success the message becomes pending, the share is kept, and the
    /// answer is the share response to publish; on failure nothing changes.
    pub fn handle_encrypted_message(&mut self, message: EncryptedMessage) -> (res: Result<PhoenixMessageType, CryptoError>)
        requires
            old(self).wf(),
        ensures
            final(self).wf(),
            final(self).peer_id() == old(self).peer_id(),
            final(self).name() == old(self).name(),
            final(self).key() == old(self).key(),
            final(self).seen() == old(self).seen(),
            final(self).collected() == old(self).collected(),
            res is Ok <==> Self::valid_ciphertext(message.encrypted_content@),
            res matches Err(e) ==> e is DecryptionFailed && final(self).pending() == old(self).pending()
                && final(self).my_shares() == old(self).my_shares(),
            res matches Ok(t) ==> (t matches PhoenixMessageType::ShareResponse(r) && {
                &&& r.message_id@ == message.id@
                &&& r.provider_id@ == old(self).peer_id()
                &&& r.provider_name@ == old(self).name()
                &&& r.share.shard_id == old(self).key().my_shard_id
                &&& r.share.share_data@ == old(self).key().share_of(old(self).key().key_view().2, message.encrypted_content@)
                &&& final(self).pending() == old(self).pending().insert(message.id@, message)
                &&& final(self).my_shares().dom() == old(self).my_shares().dom().insert(message.id@)
                &&& share_view(final(self).my_shares()[message.id@]) == share_view(r.share)
                &&& forall|k: Seq<char>| k != message.id@ && #[trigger] old(self).my_shares().dom().contains(k)
                    ==> final(self).my_shares()[k] == old(self).my_shares()[k]
            }),
    {
        let share = match self.crypto.create_decryption_share(message.encrypted_content.as_slice()) {
            Ok(s) => s,
            Err(e) => return Err(e),
        };
        let msg_id: String = message.id.clone();
        let kept = share.duplicate();
        self.pending_encrypted_messages.insert(message.id.clone(), message);
        self.my_decryption_shares.insert(msg_id.clone(), kept);
        assert(self.pending().dom() =~= self.my_shares().dom());
        let response = ShareResponse::new(msg_id, self.local_peer_id.clone(), self._node_name.clone(), share);
        Ok(PhoenixMessageType::ShareResponse(response))
    }

    /// Answers another node's request for this node's share of a message,
    /// if this node holds one.
    pub fn handle_share_request(&self, request: &ShareRequest) -> (res: Option<PhoenixMessageType>)
        requires
            self.wf(),
        ensures
            res is Some <==> self.my_shares().dom().contains(request.message_id@),
            res matches Some(t) ==> (t matches PhoenixMessageType::ShareResponse(r) && {
                &&& r.message_id@ == request.message_id@
                &&& r.provider_id@ == self.peer_id()
                &&& r.provider_name@ == self.name()
                &&& share_view(r.share) == share_view(self.my_shares()[request.message_id@])
            }),
    {
        match self.my_decryption_shares.get(request.message_id.as_str()) {
            Some(share) => {
                let response = ShareResponse::new(
                    request.message_id.clone(),
                    self.local_peer_id.clone(),
                    self._node_name.clone(),
                    share.duplicate(),
                );
                Some(PhoenixMessageType::ShareResponse(response))
            },
            None => None,
        }
    }

    /// Decrypts pending message `message_id` once this node holds at least
    /// a threshold of its shares (its own first, then the collected ones in
    /// arrival order). On success the answer is the message's sender and
    /// plaintext, and the message and its shares are forgotten; a failed
    /// combination changes nothing; with the message not pending or too few
    /// shares, nothing happens and the answer is `None`.
    pub fn try_auto_decrypt(&mut self, message_id: &str) -> (res: Option<Result<(String, String), CryptoError>>)
        requires
            old(self).wf(),
        ensures
            final(self).wf(),
            final(self).peer_id() == old(self).peer_id(),
            final(self).name() == old(self).name(),
            final(self).key() == old(self).key(),
            final(self).seen() == old(self).seen(),
            res is Some <==> old(self).pending().dom().contains(message_id@)
                && old(self).share_count(message_id@) >= old(self).key().threshold,
            res matches Some(r) ==> (r is Ok <==> old(self).decryption_of(message_id@) is Some),
            res matches Some(Ok(p)) ==> {
                &&& old(self).decryption_of(message_id@) == Some(p.1@)
                &&& p.0@ == old(self).pending()[message_id@].sender@
                &&& final(self).pending() == old(self).pending().remove(message_id@)
                &&& final(self).my_shares() == old(self).my_shares().remove(message_id@)
                &&& final(self).collected() == old(self).collected().remove(message_id@)
            },
            res matches Some(Err(e)) ==> e is DecryptionFailed,
            !(res matches Some(Ok(_))) ==> {
                &&& final(self).pending() == old(self).pending()
                &&& final(self).my_shares() == old(self).my_shares()
                &&& final(self).collected() == old(self).collected()
            },
    {
        let outcome = match self.pending_encrypted_messages.get(message_id) {
            None => return None,
            Some(message) => {
                let ghost id = message_id@;
                let mut all_shares: Vec<DecryptionShare> = Vec::new();
                match self.my_decryption_shares.get(message_id) {
                    Some(mine) => all_shares.push(mine.duplicate()),
                    None => {},
                }
                assert(shares_view(all_shares@) =~= (if self.my_shares().dom().contains(id) {
                    seq![share_view(self.my_shares()[id])] } else { Seq::empty() }));
                let ghost own_part = all_shares@;
                match self.collected_shares.get(message_id) {
                    Some(collected) => {
                        let mut copies = duplicate_shares(collected);
                        assert(copies@.len() == shares_view(copies@).len());
                        assert(collected@.len() == shares_view(collected@).len());
                        let ghost copied = copies@;
                        all_shares.append(&mut copies);
                        assert(all_shares@ == own_part + copied);
                        assert(shares_view(all_shares@) =~= shares_view(own_part) + shares_view(copied));
                    },
                    None => {
                        assert(shares_view(all_shares@) =~= shares_view(own_part) + Seq::empty());
                    },
                }
                assert(shares_view(all_shares@) == self.held_shares(id));
                assert(all_shares@.len() == self.share_count(message_id@));
                if all_shares.len() < self.crypto.threshold {
                    return None;
                }
                match self.crypto.combine_shares_and_decrypt(message.encrypted_content.as_slice(), all_shares.as_slice()) {
                    Ok(plaintext) => Ok((message.sender.clone(), plaintext)),
                    Err(e) => Err(e),
                }
            },
        };
        match outcome {
            Ok(p) => {
                self.pending_encrypted_messages.remove(message_id);
                self.my_decryption_shares.remove(message_id);
                self.collected_shares.remove(message_id);
                assert(self.pending().dom() =~= self.my_shares().dom());
                Some(Ok(p))
            },
            Err(e) => Some(Err(e)),
        }
    }

    /// Adds a share received from another node to those collected for its
    /// message, then tries to decrypt that message.
    pub fn handle_share_response(&mut self, response: ShareResponse) -> (res: Option<Result<(String, String), CryptoError>>)
        requires
            old(self).wf(),
        ensures
            final(self).wf(),
            final(self).peer_id() == old(self).peer_id(),
            final(self).name() == old(self).name(),
            final(self).key() == old(self).key(),
            final(self).seen() == old(self).seen(),
            res is Some <==> old(self).pending().dom().contains(response.message_id@)
                && old(self).share_count(response.message_id@) + 1 >= old(self).key().threshold,
            res matches Some(r) ==> (r is Ok <==> old(self).key().combined_text(
                old(self).pending()[response.message_id@].encrypted_content@,
                old(self).held_shares(response.message_id@).push(share_view(response.share))) is Some),
            res matches Some(Ok(p)) ==> {
                &&& old(self).key().combined_text(old(self).pending()[response.message_id@].encrypted_content@,
                    old(self).held_shares(response.message_id@).push(share_view(response.share))) == Some(p.1@)
                &&& p.0@ == old(self).pending()[response.message_id@].sender@
                &&& final(self).pending() == old(self).pending().remove(response.message_id@)
                &&& final(self).my_shares() == old(self).my_shares().remove(response.message_id@)
                &&& final(self).collected() == old(self).collected().remove(response.message_id@)
            },
            res matches Some(Err(e)) ==> e is DecryptionFailed,
            !(res matches Some(Ok(_))) ==> {
                &&& final(self).pending() == old(self).pending()
                &&& final(self).my_shares() == old(self).my_shares()
                &&& final(self).collected().dom() == old(self).collected().dom().insert(response.message_id@)
                &&& shares_view(final(self).collected()[response.message_id@]@) == (
                    if old(self).collected().dom().contains(response.message_id@) {
                        shares_view(old(self).collected()[response.message_id@]@)
                    } else {
                        Seq::<(usize, Seq<u8>)>::empty()
                    }).push(share_view(response.share))
                &&& forall|k: Seq<char>| k != response.message_id@ && #[trigger] old(self).collected().dom().contains(k)
                    ==> final(self).collected()[k] == old(self).collected()[k]
            },
    {
        let ghost id = response.message_id@;
        let ghost share = response.share;
        let ghost before = self.collected();
        let message_id: String = response.message_id.clone();
        let mut list: Vec<DecryptionShare> = match self.collected_shares.remove(message_id.as_str()) {
            Some(v) => v,
            None => Vec::new(),
        };
        list.push(response.share);
        let ghost new_list = list;
        self.collected_shares.insert(message_id.clone(), list);
        assert(self.collected() == before.insert(id, new_list)) by {
            assert(before.remove(id).insert(id, new_list) =~= before.insert(id, new_list));
        }
        proof {
            if before.dom().contains(id) {
                assert(shares_view(new_list@) =~= shares_view(before[id]@).push(share_view(share)));
            } else {
                assert(shares_view(new_list@) =~= Seq::<(usize, Seq<u8>)>::empty().push(share_view(share)));
            }
        }
        self.try_auto_decrypt(message_id.as_str())
    }

    /// The share count of every pending message, in order of arrival (a
    /// count too large for `usize` shows as `usize::MAX`).
    pub fn share_status(&self) -> (res: Vec<ShareStatus>)
        requires
            self.wf(),
        ensures
            res@.len() == self.pending_order().len(),
            forall|i: int| 0 <= i < res@.len() ==> {
                let st = #[trigger] res@[i];
                let id = self.pending_order()[i];
                &&& st.message_id@ == id
                &&& st.threshold == self.key().threshold
                &&& st.sender@ == self.pending()[id].sender@
                &&& st.shares == (if self.share_count(id) > usize::MAX { usize::MAX as int } else { self.share_count(id) })
            },
    {
        let mut res: Vec<ShareStatus> = Vec::new();
        let n: usize = self.pending_encrypted_messages.len();
        let mut i: usize = 0;
        while i < n
            invariant
                self.wf(),
                n == self.pending_encrypted_messages@.len(),
                i <= n,
                res@.len() == i,
                forall|j: int| 0 <= j < i ==> {
                    let st = #[trigger] res@[j];
                    let id = self.pending_order()[j];
                    &&& st.message_id@ == id
                    &&& st.threshold == self.key().threshold
                    &&& st.sender@ == self.pending()[id].sender@
                    &&& st.shares == (if self.share_count(id) > usize::MAX { usize::MAX as int } else { self.share_count(id) })
                },
            decreases n - i,
        {
            let id: &String = self.pending_encrypted_messages.key_at(i);
            let message: &EncryptedMessage = self.pending_encrypted_messages.value_at(i);
            proof {
                crate::keyed::lemma_to_map_value(self.pending_encrypted_messages@, i as int);
            }
            let mine: bool = self.my_decryption_shares.contains_key(id.as_str());
            let others: usize = match self.collected_shares.get(id.as_str()) {
                Some(v) => v.len(),
                None => 0,
            };
            let shares: usize = if mine { if others < usize::MAX { others + 1 } else { others } } else { others };
            res.push(ShareStatus {
                message_id: id.clone(),
                shares,
                threshold: self.crypto.threshold,
                sender: message.sender.clone(),
            });
            i = i + 1;
        }
        res
    }

    /// The ids of the pending messages in order of arrival.
    pub closed spec fn pending_order(&self) -> Seq<Seq<char>> {
        crate::keyed::key_order(self.pending_encrypted_messages@)
    }

    /// Reacts to a message from the mesh. A message whose id was seen before
    /// is ignored. A new plain-text message is shown to the user and, while
    /// hops remain, published again with one hop more. A new encrypted
    /// message gets this node's decryption share (published as a share
    /// response), then a decryption attempt, then, while hops remain, is
    /// published again with one hop more. A share request is answered when
    /// this node holds the share; a share response is collected and may
    /// complete a decryption.
    pub fn route_message(&mut self, message: PhoenixMessageType) -> (res: Vec<NodeAction>)
        requires
            old(self).wf(),
            message matches PhoenixMessageType::PlainText(m) ==> (!old(self).seen().contains(m.id@)
                ==> (m.ttl > 0 ==> m.hop_count < u32::MAX)),
            message matches PhoenixMessageType::Encrypted(m) ==> (!old(self).seen().contains(m.id@)
                ==> (m.ttl > 0 ==> m.hop_count < u32::MAX)),
        ensures
            final(self).wf(),
            final(self).peer_id() == old(self).peer_id(),
            final(self).name() == old(self).name(),
            final(self).key() == old(self).key(),
            old(self).seen().subset_of(final(self).seen()),
            match message {
                PhoenixMessageType::PlainText(m) => if old(self).seen().contains(m.id@) {
                    &&& res@.len() == 0
                    &&& final(self).seen() == old(self).seen()
                    &&& final(self).pending() == old(self).pending()
                    &&& final(self).my_shares() == old(self).my_shares()
                    &&& final(self).collected() == old(self).collected()
                } else {
                    &&& final(self).seen() == old(self).seen().insert(m.id@)
                    &&& final(self).pending() == old(self).pending()
                    &&& final(self).my_shares() == old(self).my_shares()
                    &&& final(self).collected() == old(self).collected()
                    &&& res@.len() == (if m.ttl > 0 { 2int } else { 1int })
                    &&& res@[0] matches NodeAction::Deliver { sender, content }
                        && sender@ == m.sender@ && content@ == m.content@
                    &&& m.ttl > 0 ==> (res@[1] matches NodeAction::Publish(PhoenixMessageType::PlainText(f)) && {
                        &&& f.id == m.id
                        &&& f.sender == m.sender
                        &&& f.content == m.content
                        &&& f.timestamp == m.timestamp
                        &&& f.ttl == m.ttl - 1
                        &&& f.hop_count == m.hop_count + 1
                    })
                },
                PhoenixMessageType::Encrypted(m) => if old(self).seen().contains(m.id@) {
                    &&& res@.len() == 0
                    &&& final(self).seen() == old(self).seen()
                    &&& final(self).pending() == old(self).pending()
                    &&& final(self).my_shares() == old(self).my_shares()
                    &&& final(self).collected() == old(self).collected()
                } else {
                    let forwarded = if m.ttl > 0 { 1int } else { 0int };
                    &&& final(self).seen() == old(self).seen().insert(m.id@)
                    &&& res@.len() == 1 + forwarded || res@.len() == 2 + forwarded
                    &&& res@[0] is Publish <==> Self::valid_ciphertext(m.encrypted_content@)
                    &&& res@.len() == 2 + forwarded <==> old(self).decrypts_after_share(m)
                    &&& res@.len() == 2 + forwarded ==> (res@[1] is Decrypted
                        <==> old(self).decryption_after_share(m) is Some)
                    &&& res@.len() == 2 + forwarded ==> (res@[1] matches NodeAction::Decrypted { sender, plaintext, .. }
                        ==> old(self).decryption_after_share(m) == Some(plaintext@)
                            && sender@ == old(self).sender_after_share(m))
                    &&& (res@[0] matches NodeAction::Publish(PhoenixMessageType::ShareResponse(r))
                        && r.message_id@ == m.id@ && r.share.shard_id == old(self).key().my_shard_id
                        && r.share.share_data@ == old(self).key().share_of(old(self).key().key_view().2, m.encrypted_content@)
                        && r.provider_id@ == old(self).peer_id() && r.provider_name@ == old(self).name())
                        || (res@[0] matches NodeAction::ShareFailed { message_id, error }
                        && message_id@ == m.id@ && error is DecryptionFailed)
                    &&& res@.len() == 2 + forwarded ==> ((res@[1] matches NodeAction::Decrypted { message_id, .. }
                        && message_id@ == m.id@)
                        || (res@[1] matches NodeAction::DecryptionFailed { message_id, error }
                        && message_id@ == m.id@ && error is DecryptionFailed))
                    &&& if res@.len() == 2 + forwarded && res@[1] is Decrypted {
                        &&& final(self).pending() == old(self).pending().remove(m.id@)
                        &&& final(self).my_shares() == old(self).my_shares().remove(m.id@)
                        &&& final(self).collected() == old(self).collected().remove(m.id@)
                    } else if res@[0] is ShareFailed {
                        &&& final(self).pending() == old(self).pending()
                        &&& final(self).my_shares() == old(self).my_shares()
                        &&& final(self).collected() == old(self).collected()
                    } else {
                        &&& final(self).pending().dom() == old(self).pending().dom().insert(m.id@)
                        &&& final(self).pending()[m.id@].id == m.id
                        &&& final(self).pending()[m.id@].sender == m.sender
                        &&& final(self).pending()[m.id@].encrypted_content@ == m.encrypted_content@
                        &&& final(self).pending()[m.id@].threshold_needed == m.threshold_needed
                        &&& forall|k: Seq<char>| k != m.id@ && #[trigger] old(self).pending().dom().contains(k)
                            ==> final(self).pending()[k] == old(self).pending()[k]
                        &&& final(self).collected() == old(self).collected()
                    }
                    &&& m.ttl > 0 ==> (res@.last() matches NodeAction::Publish(PhoenixMessageType::Encrypted(f)) && {
                        &&& f.id == m.id
                        &&& f.sender == m.sender
                        &&& f.encrypted_content == m.encrypted_content
                        &&& f.timestamp == m.timestamp
                        &&& f.threshold_needed == m.threshold_needed
                        &&& f.ttl == m.ttl - 1
                        &&& f.hop_count == m.hop_count + 1
                    })
                },
                PhoenixMessageType::ShareRequest(r) => {
                    &&& final(self).seen() == old(self).seen()
                    &&& final(self).pending() == old(self).pending()
                    &&& final(self).my_shares() == old(self).my_shares()
                    &&& final(self).collected() == old(self).collected()
                    &&& res@.len() == (if old(self).my_shares().dom().contains(r.message_id@) { 1int } else { 0int })
                    &&& res@.len() == 1 ==> (res@[0] matches NodeAction::Publish(PhoenixMessageType::ShareResponse(resp)) && {
                        &&& resp.message_id@ == r.message_id@
                        &&& resp.provider_id@ == old(self).peer_id()
                        &&& resp.provider_name@ == old(self).name()
                        &&& share_view(resp.share) == share_view(old(self).my_shares()[r.message_id@])
                    })
                },
                PhoenixMessageType::ShareResponse(r) => {
                    &&& final(self).seen() == old(self).seen()
                    &&& res@.len() <= 1
                    &&& res@.len() == 1 <==> old(self).pending().dom().contains(r.message_id@)
                        && old(self).share_count(r.message_id@) + 1 >= old(self).key().threshold
                    &&& res@.len() == 1 ==> (res@[0] is Decrypted <==> old(self).decryption_with(r.message_id@, r.share) is Some)
                    &&& res@.len() == 1 ==> (res@[0] matches NodeAction::Decrypted { plaintext, .. }
                        ==> old(self).decryption_with(r.message_id@, r.share) == Some(plaintext@))
                    &&& res@.len() == 1 ==> ((res@[0] matches NodeAction::Decrypted { message_id, sender, .. }
                        && message_id@ == r.message_id@
                        && sender@ == old(self).pending()[r.message_id@].sender@
                        && final(self).pending() == old(self).pending().remove(r.message_id@)
                        && final(self).my_shares() == old(self).my_shares().remove(r.message_id@)
                        && final(self).collected() == old(self).collected().remove(r.message_id@))
                        || (res@[0] matches NodeAction::DecryptionFailed { message_id, error }
                        && message_id@ == r.message_id@ && error is DecryptionFailed))
                    &&& !(res@.len() == 1 && res@[0] is Decrypted) ==> {
                        &&& final(self).pending() == old(self).pending()
                        &&& final(self).my_shares() == old(self).my_shares()
                        &&& final(self).collected().dom() == old(self).collected().dom().insert(r.message_id@)
                        &&& shares_view(final(self).collected()[r.message_id@]@) == (
                            if old(self).collected().dom().contains(r.message_id@) {
                                shares_view(old(self).collected()[r.message_id@]@)
                            } else {
                                Seq::<(usize, Seq<u8>)>::empty()
                            }).push(share_view(r.share))
                        &&& forall|k: Seq<char>| k != r.message_id@ && #[trigger] old(self).collected().dom().contains(k)
                            ==> final(self).collected()[k] == old(self).collected()[k]
                    }
                },
            },
    {
        let mut actions: Vec<NodeAction> = Vec::new();
        match message {
            PhoenixMessageType::PlainText(m) => {
                let mut m = m;
                if self.seen_messages.contains_key(m.id.as_str()) {
                    return actions;
                }
                self.seen_messages.insert(m.id.clone(), ());
                assert(self.seen() =~= old(self).seen().insert(m.id@));
                actions.push(NodeAction::Deliver { sender: m.sender.clone(), content: copy_bytes(&m.content) });
                if m.decrement_ttl() {
                    actions.push(NodeAction::Publish(PhoenixMessageType::PlainText(m)));
                }
            },
            PhoenixMessageType::Encrypted(m) => {
                let mut m = m;
                if self.seen_messages.contains_key(m.id.as_str()) {
                    return actions;
                }
                self.seen_messages.insert(m.id.clone(), ());
                assert(self.seen() =~= old(self).seen().insert(m.id@));
                let ghost before_pending = self.pending();
                let ghost before_mine = self.my_shares();
                match self.handle_encrypted_message(m.duplicate()) {
                    Ok(t) => actions.push(NodeAction::Publish(t)),
                    Err(e) => actions.push(NodeAction::ShareFailed { message_id: m.id.clone(), error: e }),
                }
                proof {
                    assert(self.pending().remove(m.id@) =~= before_pending.remove(m.id@));
                    assert(self.my_shares().remove(m.id@) =~= before_mine.remove(m.id@));
                }
                match self.try_auto_decrypt(m.id.as_str()) {
                    Some(Ok(p)) => {
                        let (sender, plaintext) = p;
                        actions.push(NodeAction::Decrypted { message_id: m.id.clone(), sender, plaintext });
                    },
                    Some(Err(e)) => actions.push(NodeAction::DecryptionFailed { message_id: m.id.clone(), error: e }),
                    None => {},
                }
                if m.decrement_ttl() {
                    actions.push(NodeAction::Publish(PhoenixMessageType::Encrypted(m)));
                }
            },
            PhoenixMessageType::ShareRequest(r) => {
                match self.handle_share_request(&r) {
                    Some(t) => actions.push(NodeAction::Publish(t)),
                    None => {},
                }
            },
            PhoenixMessageType::ShareResponse(r) => {
                let message_id: String = r.message_id.clone();
                match self.handle_share_response(r) {
                    Some(Ok(p)) => {
                        let (sender, plaintext) = p;
                        actions.push(NodeAction::Decrypted { message_id, sender, plaintext });
                    },
                    Some(Err(e)) => actions.push(NodeAction::DecryptionFailed { message_id, error: e }),
                    None => {},
                }
            },
        }
        actions
    }

    /// Law: a node holds its own decryption share of every message it keeps
    /// pending, and of no other.
    pub proof fn lemma_pending_have_own_share(&self)
        requires
            self.wf(),
        ensures
            self.pending().dom() == self.my_shares().dom(),
            forall|id: Seq<char>| #[trigger] self.pending().dom().contains(id) ==> self.share_count(id) >= 1,
    {
    }

    /// A request for the other nodes' shares of `message_id`, from this
    /// node.
    pub fn request_shares(&self, message_id: String) -> (res: PhoenixMessageType)
        ensures
            res matches PhoenixMessageType::ShareRequest(r) && r.message_id == message_id
                && r.requester_id@ == self.peer_id() && r.requester_name@ == self.name(),
    {
        PhoenixMessageType::ShareRequest(ShareRequest::new(message_id, self.local_peer_id.clone(), self._node_name.clone()))
    }
}

} // verus!
