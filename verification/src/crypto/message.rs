//! Messages that carry ciphertexts and decryption shares across the mesh.

use vstd::prelude::*;
use crate::fresh::{new_message_id, now_millis};
use super::threshold::DecryptionShare;

verus! {

/// One hop of a message's `(ttl, hop_count)`: while hops remain, the ttl
/// drops by one and the hop count rises by one; otherwise nothing changes.
pub open spec fn hop_step(ttl: int, hop_count: int) -> (int, int) {
    if ttl > 0 { (ttl - 1, hop_count + 1) } else { (ttl, hop_count) }
}

/// `(ttl, hop_count)` after `k` hops were tried.
pub open spec fn hops_after(ttl: int, hop_count: int, k: nat) -> (int, int)
    decreases k,
{
    if k == 0 {
        (ttl, hop_count)
    } else {
        let (t, h) = hops_after(ttl, hop_count, (k - 1) as nat);
        hop_step(t, h)
    }
}

/// Law: a message with `ttl` hops left takes at most `ttl` more hops,
/// however often a hop is tried: after `k` tries it has taken
/// `min(k, ttl)` of them, and the next try takes a hop (a hop is taken
/// exactly while hops remain) exactly when `k < ttl`.
pub proof fn lemma_hops_bounded(ttl: nat, hop_count: int, k: nat)
    ensures
        hops_after(ttl as int, hop_count, k) == (
            if k <= ttl { (ttl - k, hop_count + k) } else { (0int, hop_count + ttl) }),
        (hops_after(ttl as int, hop_count, k).0 > 0) == (k < ttl),
        hops_after(ttl as int, hop_count, k + 1) == hop_step(
            hops_after(ttl as int, hop_count, k).0, hops_after(ttl as int, hop_count, k).1),
    decreases k,
{
    if k > 0 {
        lemma_hops_bounded(ttl, hop_count, (k - 1) as nat);
    }
}

/// A threshold-encrypted message flooding through the mesh. `timestamp` is in
/// milliseconds since the Unix epoch; `ttl` is the number of hops it may
/// still take and `hop_count` the number it has taken.
pub struct EncryptedMessage {
    pub id: String,
    pub sender: String,
    pub encrypted_content: Vec<u8>,
    pub timestamp: i64,
    pub ttl: u32,
    pub hop_count: u32,
    pub threshold_needed: usize,
}

impl EncryptedMessage {
    /// A message with a fresh id, the current time and no hops taken yet.
    pub fn new(sender: String, encrypted_content: Vec<u8>, threshold_needed: usize, ttl: u32) -> (res: Self)
        ensures
            res.id@.len() == 36,
            crate::fresh::is_random_uuid_text(res.id@),
            res.sender == sender,
            res.encrypted_content == encrypted_content,
            res.ttl == ttl,
            res.hop_count == 0,
            res.threshold_needed == threshold_needed,
    {
        EncryptedMessage {
            id: new_message_id(),
            sender,
            encrypted_content,
            timestamp: now_millis(),
            ttl,
            hop_count: 0,
            threshold_needed,
        }
    }

    /// A copy of the message.
    pub fn duplicate(&self) -> (res: Self)
        ensures
            res.id == self.id,
            res.sender == self.sender,
            res.encrypted_content@ == self.encrypted_content@,
            res.timestamp == self.timestamp,
            res.ttl == self.ttl,
            res.hop_count == self.hop_count,
            res.threshold_needed == self.threshold_needed,
    {
        EncryptedMessage {
            id: self.id.clone(),
            sender: self.sender.clone(),
            encrypted_content: crate::filecoin::types::copy_bytes(&self.encrypted_content),
            timestamp: self.timestamp,
            ttl: self.ttl,
            hop_count: self.hop_count,
            threshold_needed: self.threshold_needed,
        }
    }

    /// Takes one hop: while hops remain, the ttl drops by one, the hop count
    /// rises by one and the answer is `true`; with none left, nothing changes
    /// and the answer is `false`. Either way `ttl + hop_count` is unchanged.
    pub fn decrement_ttl(&mut self) -> (res: bool)
        requires
            old(self).ttl > 0 ==> old(self).hop_count < u32::MAX,
        ensures
            res == (old(self).ttl > 0),
            res ==> final(self).ttl == old(self).ttl - 1 && final(self).hop_count == old(self).hop_count + 1,
            !res ==> final(self).ttl == old(self).ttl && final(self).hop_count == old(self).hop_count,
            final(self).ttl + final(self).hop_count == old(self).ttl + old(self).hop_count,
            (final(self).ttl as int, final(self).hop_count as int) == hop_step(old(self).ttl as int, old(self).hop_count as int),
            final(self).id == old(self).id,
            final(self).sender == old(self).sender,
            final(self).encrypted_content == old(self).encrypted_content,
            final(self).timestamp == old(self).timestamp,
            final(self).threshold_needed == old(self).threshold_needed,
    {
        if self.ttl > 0 {
            self.ttl = self.ttl - 1;
            self.hop_count = self.hop_count + 1;
            true
        } else {
            false
        }
    }
}

/// A request to the other nodes for their decryption shares of a message.
pub struct ShareRequest {
    pub message_id: String,
    pub requester_id: String,
    pub requester_name: String,
}

impl ShareRequest {
    /// A request for the shares of `message_id`.
    pub fn new(message_id: String, requester_id: String, requester_name: String) -> (res: Self)
        ensures
            res.message_id == message_id,
            res.requester_id == requester_id,
            res.requester_name == requester_name,
    {
        ShareRequest { message_id, requester_id, requester_name }
    }
}

/// A node's decryption share of a message, sent to the other nodes.
pub struct ShareResponse {
    pub message_id: String,
    pub provider_id: String,
    pub provider_name: String,
    pub share: DecryptionShare,
}

impl ShareResponse {
    /// A response carrying `share` for `message_id`.
    pub fn new(message_id: String, provider_id: String, provider_name: String, share: DecryptionShare) -> (res: Self)
        ensures
            res.message_id == message_id,
            res.provider_id == provider_id,
            res.provider_name == provider_name,
            res.share == share,
    {
        ShareResponse { message_id, provider_id, provider_name, share }
    }
}

} // verus!
