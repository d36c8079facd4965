//! Shard splitting and reassembly, and the emergency cache.

use vstd::prelude::*;
use vstd::string::StringExecFns;
use crate::text::{decimal, push_decimal};
use crate::keyed::{KeyedTable, key_order, to_map};
use crate::crypto::threshold::ThresholdCrypto;
use crate::fresh::{new_message_id, now_millis};
use super::types::{FilecoinError, ThresholdMessage};

verus! {

/// `max(1, len / total)`: the length of every shard but the ones that carry
/// one extra byte.
pub open spec fn shard_base(len: int, total: int) -> int {
    if len / total > 1 { len / total } else { 1 }
}

/// Offset in the data at which shard `i` starts (clamped to the data's
/// length): the first `len % total` shards carry one byte more than the
/// others.
pub open spec fn shard_bound(len: int, total: int, i: int) -> int {
    let unclamped = i * shard_base(len, total) + (if i < len % total { i } else { len % total });
    if unclamped < len { unclamped } else { len }
}

/// The one-byte shard `[0]` that stands in for a shard without data.
pub open spec fn is_padding(s: Seq<u8>) -> bool {
    s.len() == 1 && s[0] == 0
}

/// Shard `i` of `data`: its slice of the data, or the padding shard `[0]`
/// once the data is used up.
pub open spec fn shard_at(data: Seq<u8>, total: nat, i: int) -> Seq<u8> {
    let lo = shard_bound(data.len() as int, total as int, i);
    let hi = shard_bound(data.len() as int, total as int, i + 1);
    if lo < data.len() { data.subrange(lo, hi) } else { seq![0u8] }
}

/// The `total` shards that `data` is split into.
pub open spec fn spec_shards(data: Seq<u8>, total: nat) -> Seq<Seq<u8>> {
    Seq::new(total, |i: int| shard_at(data, total, i))
}

/// No shard that carries data is itself the byte `[0]`, which reassembly
/// would take for padding.
pub open spec fn shards_unambiguous(data: Seq<u8>, total: nat) -> bool {
    forall|i: int|
        0 <= i < total && shard_bound(data.len() as int, total as int, i) < data.len()
            ==> !is_padding(#[trigger] shard_at(data, total, i))
}

/// The concatenation of all shards that are not padding, in order.
pub open spec fn joined(shards: Seq<Seq<u8>>) -> Seq<u8>
    decreases shards.len(),
{
    if shards.len() == 0 {
        Seq::empty()
    } else {
        let last = shards.last();
        joined(shards.drop_last()) + (if is_padding(last) { Seq::empty() } else { last })
    }
}

/// Law: reassembly appends each shard whole, in order, and skips exactly
/// the one-byte shard `[0]`: any other shard, zero bytes included, is kept.
pub proof fn lemma_joined_push(shards: Seq<Seq<u8>>, x: Seq<u8>)
    ensures
        joined(shards.push(x)) == (if x == seq![0u8] { joined(shards) } else { joined(shards) + x }),
{
    assert(shards.push(x).drop_last() == shards);
    if is_padding(x) {
        assert(x =~= seq![0u8]);
    }
    if x == seq![0u8] {
        assert(is_padding(x));
        assert(joined(shards) + Seq::<u8>::empty() =~= joined(shards));
    }
}

/// The byte contents of a list of shards.
pub open spec fn views(shards: Seq<Vec<u8>>) -> Seq<Seq<u8>> {
    shards.map_values(|s: Vec<u8>| s@)
}

/// The text of the error for too few shards.
pub open spec fn too_few_shards_text(threshold: nat, got: nat) -> Seq<char> {
    "Need at least "@ + decimal(threshold) + " shards, got "@ + decimal(got)
}

/// Copies `data[from..to]` into a new vector.
fn copy_range(data: &[u8], from: usize, to: usize) -> (res: Vec<u8>)
    requires
        from <= to <= data@.len(),
    ensures
        res@ == data@.subrange(from as int, to as int),
{
    let mut res: Vec<u8> = Vec::new();
    let mut k: usize = from;
    while k < to
        invariant
            from <= k <= to <= data@.len(),
            res@ == data@.subrange(from as int, k as int),
        decreases to - k,
    {
        res.push(data[k]);
        k = k + 1;
    }
    res
}

/// Appends all of `src` to `dst`.
fn append_bytes(dst: &mut Vec<u8>, src: &Vec<u8>)
    ensures
        final(dst)@ == old(dst)@ + src@,
{
    let mut k: usize = 0;
    while k < src.len()
        invariant
            k <= src@.len(),
            dst@ == old(dst)@ + src@.take(k as int),
        decreases src.len() - k,
    {
        dst.push(src[k]);
        k = k + 1;
        assert(src@.take(k as int) == src@.take(k - 1) + seq![src@[k - 1]]);
    }
    assert(src@.take(src@.len() as int) == src@);
}

/// Where shard `i + 1` starts, given where shard `i` starts.
proof fn lemma_next_bound(len: int, total: int, i: int)
    requires
        0 < total,
        0 <= i,
        0 <= len,
    ensures
        shard_bound(len, total, i + 1) == ({
            let lo = shard_bound(len, total, i);
            let step = shard_base(len, total) + (if i < len % total { 1int } else { 0int });
            if lo + step < len { lo + step } else { len }
        }),
        shard_bound(len, total, i) <= shard_bound(len, total, i + 1),
        0 <= shard_bound(len, total, i) <= len,
{
    let b = shard_base(len, total);
    assert((i + 1) * b == i * b + b) by (nonlinear_arith);
    assert(i * b >= 0) by (nonlinear_arith) requires i >= 0, b >= 1;
}

/// Splits messages into `total_shards` shards and reassembles them once at
/// least `threshold` shards are at hand.
pub struct ThresholdStorage {
    pub threshold: usize,
    pub total_shards: usize,
}

impl ThresholdStorage {
    /// A storage layout with the given threshold and number of shards.
    pub fn new(threshold: usize, total_shards: usize) -> (res: Self)
        ensures
            res.threshold == threshold,
            res.total_shards == total_shards,
    {
        ThresholdStorage { threshold, total_shards }
    }

    /// Encrypts `message` with `crypto` and splits the ciphertext into
    /// `total_shards` shards, under a fresh id and the current time. It
    /// always succeeds (an encryption failure would become a
    /// `ThresholdError` carrying the crypto error's text).
    pub fn create_threshold_message(
        &self,
        crypto: &ThresholdCrypto,
        message: &str,
        sender: &str,
        emergency: bool,
    ) -> (res: Result<ThresholdMessage, FilecoinError>)
        requires
            self.total_shards > 0,
        ensures
            res is Ok,
            res matches Ok(t) ==> {
                &&& t.message_id@.len() == 36
                &&& crate::fresh::is_random_uuid_text(t.message_id@)
                &&& exists|ciphertext: Seq<u8>| #[trigger] crypto.encrypts(ciphertext, message@)
                    && views(t.encrypted_shards@) == spec_shards(ciphertext, self.total_shards as nat)
                &&& t.threshold == self.threshold
                &&& t.total_shards == self.total_shards
                &&& t.emergency == emergency
                &&& t.sender@ == sender@
            },
    {
        let encrypted_content = match crypto.encrypt_message(message) {
            Ok(c) => c,
            Err(e) => return Err(FilecoinError::ThresholdError(e.text())),
        };
        let shards = match self.create_shards(encrypted_content.as_slice()) {
            Ok(s) => s,
            Err(e) => return Err(e),
        };
        Ok(ThresholdMessage {
            message_id: new_message_id(),
            encrypted_shards: shards,
            threshold: self.threshold,
            total_shards: self.total_shards,
            emergency,
            sender: sender.to_owned(),
            timestamp: now_millis(),
        })
    }

    /// Splits `data` into exactly `total_shards` shards: consecutive slices
    /// of the data, the first `len % total_shards` of them one byte longer,
    /// and `[0]` for every shard once the data is used up (every shard, for
    /// empty data).
    pub fn create_shards(&self, data: &[u8]) -> (res: Result<Vec<Vec<u8>>, FilecoinError>)
        requires
            self.total_shards > 0 || data@.len() == 0,
        ensures
            res matches Ok(shards) && views(shards@) == spec_shards(data@, self.total_shards as nat),
    {
        let total: usize = self.total_shards;
        let len: usize = data.len();
        let mut shards: Vec<Vec<u8>> = Vec::new();
        if len == 0 {
            let mut i: usize = 0;
            while i < total
                invariant
                    i <= total,
                    len == data@.len() == 0,
                    shards@.len() == i,
                    forall|k: int| 0 <= k < i ==> #[trigger] shards@[k]@ == shard_at(data@, total as nat, k),
                decreases total - i,
            {
                shards.push(vec![0u8]);
                proof {
                    assert(shard_at(data@, total as nat, i as int) == seq![0u8]);
                }
                i = i + 1;
            }
            assert(views(shards@) =~= spec_shards(data@, total as nat));
            return Ok(shards);
        }
        let q: usize = len / total;
        let base: usize = if q > 1 { q } else { 1 };
        let extra: usize = len % total;
        let mut offset: usize = 0;
        let mut i: usize = 0;
        while i < total
            invariant
                0 < total == self.total_shards,
                len == data@.len(),
                base == shard_base(len as int, total as int),
                extra == len % total,
                i <= total,
                offset == shard_bound(len as int, total as int, i as int),
                shards@.len() == i,
                forall|k: int| 0 <= k < i ==> #[trigger] shards@[k]@ == shard_at(data@, total as nat, k),
            decreases total - i,
        {
            proof {
                lemma_next_bound(len as int, total as int, i as int);
            }
            let mut end: usize = if offset < len && base < len - offset { offset + base } else { len };
            if i < extra && end < len {
                end = end + 1;
            }
            if offset < len {
                shards.push(copy_range(data, offset, end));
            } else {
                shards.push(vec![0u8]);
            }
            offset = end;
            i = i + 1;
        }
        assert(views(shards@) =~= spec_shards(data@, total as nat));
        Ok(shards)
    }

    /// Reassembles data from shards: with fewer than `threshold` shards it
    /// fails; otherwise it concatenates the first `total_shards` shards,
    /// skipping every padding shard `[0]`.
    pub fn reconstruct_from_shards(&self, shards: &[Vec<u8>]) -> (res: Result<Vec<u8>, FilecoinError>)
        ensures
            shards@.len() < self.threshold ==> (res matches Err(FilecoinError::ThresholdError(m))
                && m@ == too_few_shards_text(self.threshold as nat, shards@.len())),
            shards@.len() >= self.threshold ==> (res matches Ok(v)
                && v@ == joined(views(shards@).take(
                    if shards@.len() < self.total_shards { shards@.len() as int } else { self.total_shards as int }))),
    {
        if shards.len() < self.threshold {
            let mut m = String::from_str("Need at least ");
            push_decimal(&mut m, self.threshold);
            m.append(" shards, got ");
            push_decimal(&mut m, shards.len());
            return Err(FilecoinError::ThresholdError(m));
        }
        let n: usize = if shards.len() < self.total_shards { shards.len() } else { self.total_shards };
        let mut reconstructed: Vec<u8> = Vec::new();
        let mut i: usize = 0;
        while i < n
            invariant
                i <= n <= shards@.len(),
                reconstructed@ == joined(views(shards@).take(i as int)),
            decreases n - i,
        {
            let shard = &shards[i];
            proof {
                assert(views(shards@).take(i + 1).drop_last() == views(shards@).take(i as int));
                assert(views(shards@).take(i + 1).last() == shard@);
            }
            if !(shard.len() == 1 && shard[0] == 0) {
                append_bytes(&mut reconstructed, shard);
            }
            i = i + 1;
        }
        Ok(reconstructed)
    }
}

} // verus!

verus! {

/// Messages kept at hand for emergencies, keyed by message id, oldest first,
/// at most `cache_limit` of them unless the limit is zero.
pub struct EmergencyCache {
    cached_messages: KeyedTable<ThresholdMessage>,
    cache_limit: usize,
}

impl EmergencyCache {
    /// The cached messages with their ids, oldest first.
    pub closed spec fn entries(&self) -> Seq<(Seq<char>, ThresholdMessage)> {
        self.cached_messages@
    }

    /// The cached messages by id.
    pub open spec fn messages(&self) -> Map<Seq<char>, ThresholdMessage> {
        to_map(self.entries())
    }

    /// The ids of the cached messages, oldest first.
    pub open spec fn ids(&self) -> Seq<Seq<char>> {
        key_order(self.entries())
    }

    /// How many messages the cache makes room for.
    pub closed spec fn limit(&self) -> nat {
        self.cache_limit as nat
    }

    /// The most messages the cache holds: its limit, or one for a limit of
    /// zero.
    pub open spec fn capacity(&self) -> nat {
        if self.limit() > 0 { self.limit() } else { 1 }
    }

    /// Each id occurs once and is the id of the message stored under it, and
    /// the cache holds at most `capacity()` messages.
    pub closed spec fn wf(&self) -> bool {
        &&& self.cached_messages.wf()
        &&& self.cached_messages@.len() <= self.capacity()
        &&& forall|i: int| 0 <= i < self.cached_messages@.len()
            ==> (#[trigger] self.cached_messages@[i]).0 == self.cached_messages@[i].1.message_id@
    }

    /// An empty cache with room for `cache_limit` messages.
    pub fn new(cache_limit: usize) -> (res: Self)
        ensures
            res.wf(),
            res.entries() == Seq::<(Seq<char>, ThresholdMessage)>::empty(),
            res.messages() == Map::<Seq<char>, ThresholdMessage>::empty(),
            res.limit() == cache_limit,
    {
        EmergencyCache { cached_messages: KeyedTable::new(), cache_limit }
    }

    /// Caches `message` under its id. When the cache already holds
    /// `cache_limit` messages or more, the oldest one is dropped first; a
    /// message with an id already cached takes the old one's place.
    pub fn cache_message(&mut self, message: ThresholdMessage)
        requires
            old(self).wf(),
        ensures
            final(self).wf(),
            final(self).limit() == old(self).limit(),
            final(self).messages().dom().contains(message.message_id@),
            final(self).messages()[message.message_id@] == message,
            final(self).messages() == (if old(self).entries().len() >= old(self).limit()
                && old(self).entries().len() > 0 {
                old(self).messages().remove(old(self).ids()[0])
            } else {
                old(self).messages()
            }).insert(message.message_id@, message),
            final(self).ids() == next_cache_order(old(self).limit(), old(self).ids(), message.message_id@),
    {
        let ghost id = message.message_id@;
        let ghost m = message;
        let ghost kept = if old(self).entries().len() >= old(self).limit() && old(self).entries().len() > 0 {
            old(self).ids().drop_first()
        } else {
            old(self).ids()
        };
        if self.cached_messages.len() >= self.cache_limit && self.cached_messages.len() > 0 {
            let oldest: String = self.cached_messages.key_at(0).clone();
            let ghost before = self.cached_messages@;
            self.cached_messages.remove(oldest.as_str());
            proof {
                assert(key_order(before)[0] == before[0].0);
                assert(self.cached_messages@ == before.remove(0));
                assert(self.cached_messages@.len() < old(self).capacity());
                assert(key_order(self.cached_messages@) =~= kept);
                assert forall|i: int| 0 <= i < self.cached_messages@.len()
                    implies (#[trigger] self.cached_messages@[i]).0 == self.cached_messages@[i].1.message_id@ by {
                    assert(self.cached_messages@[i] == before[i + 1]);
                }
            }
        }
        let key: String = message.message_id.clone();
        let ghost before = self.cached_messages@;
        assert(key_order(before) =~= kept);
        self.cached_messages.insert(key, message);
        proof {
            crate::keyed::lemma_to_map_dom(before, id);
            if exists|j: int| 0 <= j < before.len() && #[trigger] before[j].0 == id {
                let j = choose|j: int| 0 <= j < before.len() && #[trigger] before[j].0 == id;
                assert(self.cached_messages@ == before.update(j, (id, m)));
                assert(kept[j] == id);
                assert(key_order(self.cached_messages@) =~= kept);
            } else {
                assert(self.cached_messages@ == before.push((id, m)));
                assert(!kept.contains(id)) by {
                    if kept.contains(id) {
                        let j = choose|j: int| 0 <= j < kept.len() && kept[j] == id;
                        assert(before[j].0 == id);
                    }
                }
                assert(key_order(self.cached_messages@) =~= kept.push(id));
            }
            assert forall|i: int| 0 <= i < self.cached_messages@.len()
                implies (#[trigger] self.cached_messages@[i]).0 == self.cached_messages@[i].1.message_id@ by {
                if exists|j: int| 0 <= j < before.len() && #[trigger] before[j].0 == id {
                    let j = choose|j: int| 0 <= j < before.len() && #[trigger] before[j].0 == id;
                    assert(self.cached_messages@ == before.update(j, (id, m)));
                    if i != j {
                        assert(self.cached_messages@[i] == before[i]);
                    }
                } else {
                    assert(self.cached_messages@ == before.push((id, m)));
                    if i < before.len() {
                        assert(self.cached_messages@[i] == before[i]);
                    }
                }
            }
        }
    }

    /// The cached message with id `message_id`, if any.
    pub fn get_cached_message(&self, message_id: &str) -> (res: Option<&ThresholdMessage>)
        requires
            self.wf(),
        ensures
            match res {
                Some(m) => self.messages().dom().contains(message_id@) && *m == self.messages()[message_id@],
                None => !self.messages().dom().contains(message_id@),
            },
    {
        self.cached_messages.get(message_id)
    }

    /// The ids of the cached messages, oldest first.
    pub fn list_cached_messages(&self) -> (res: Vec<String>)
        requires
            self.wf(),
        ensures
            res@.map_values(|s: String| s@) == self.ids(),
    {
        let mut res: Vec<String> = Vec::new();
        let n: usize = self.cached_messages.len();
        let mut i: usize = 0;
        while i < n
            invariant
                n == self.cached_messages@.len(),
                i <= n,
                res@.len() == i,
                forall|j: int| 0 <= j < i ==> #[trigger] res@[j]@ == self.cached_messages@[j].0,
            decreases n - i,
        {
            res.push(self.cached_messages.key_at(i).clone());
            i = i + 1;
        }
        assert(res@.map_values(|s: String| s@) =~= self.ids());
        res
    }

    /// Drops every cached message.
    pub fn clear_cache(&mut self)
        ensures
            final(self).wf(),
            final(self).limit() == old(self).limit(),
            final(self).entries() == Seq::<(Seq<char>, ThresholdMessage)>::empty(),
            final(self).messages() == Map::<Seq<char>, ThresholdMessage>::empty(),
    {
        self.cached_messages.clear();
    }
}

/// The cache's ids, oldest first, after caching a message with id `id`:
/// when full (at its limit, and holding something), the oldest id leaves;
/// then `id` is added at the end unless it is still there.
pub open spec fn next_cache_order(limit: nat, ids: Seq<Seq<char>>, id: Seq<char>) -> Seq<Seq<char>> {
    let kept = if ids.len() >= limit && ids.len() > 0 { ids.drop_first() } else { ids };
    if kept.contains(id) { kept } else { kept.push(id) }
}

/// The cache's ids after caching messages with ids `ids`, in order, into an
/// empty cache with the given limit.
pub open spec fn cache_order_after(limit: nat, ids: Seq<Seq<char>>) -> Seq<Seq<char>>
    decreases ids.len(),
{
    if ids.len() == 0 {
        Seq::empty()
    } else {
        next_cache_order(limit, cache_order_after(limit, ids.drop_last()), ids.last())
    }
}

/// Law: caching messages with distinct ids into an empty cache with limit
/// `limit >= 1` keeps exactly the latest `limit` of them, oldest first:
/// each message beyond the limit evicts the oldest one.
pub proof fn lemma_cache_keeps_latest(limit: nat, ids: Seq<Seq<char>>)
    requires
        limit >= 1,
        forall|a: int, b: int| 0 <= a < b < ids.len() ==> ids[a] != ids[b],
    ensures
        cache_order_after(limit, ids) == ids.skip(if ids.len() > limit { ids.len() - limit } else { 0 }),
    decreases ids.len(),
{
    if ids.len() > 0 {
        let p = ids.drop_last();
        lemma_cache_keeps_latest(limit, p);
        let before = cache_order_after(limit, p);
        let start: int = if p.len() > limit { p.len() - limit } else { 0 };
        assert(before == p.skip(start));
        let kept = if before.len() >= limit && before.len() > 0 { before.drop_first() } else { before };
        assert(!kept.contains(ids.last())) by {
            if kept.contains(ids.last()) {
                let k = choose|k: int| 0 <= k < kept.len() && kept[k] == ids.last();
                assert(kept[k] == before[k + (before.len() - kept.len())]);
                assert(before[k + (before.len() - kept.len())] == ids[start + k + (before.len() - kept.len())]);
            }
        }
        assert(cache_order_after(limit, ids) == kept.push(ids.last()));
        assert(cache_order_after(limit, ids) =~= ids.skip(if ids.len() > limit { ids.len() - limit } else { 0 }));
    }
}

/// Law: the emergency cache never holds more messages than its limit (one,
/// for a limit of zero).
pub proof fn lemma_cache_bounded(cache: &EmergencyCache)
    requires
        cache.wf(),
    ensures
        cache.messages().dom().finite(),
        cache.messages().dom().len() <= cache.capacity(),
        cache.messages().dom().len() == cache.ids().len(),
{
    crate::keyed::lemma_to_map_len(cache.entries());
}

proof fn lemma_joined_prefix(data: Seq<u8>, total: nat, i: int)
    requires
        0 < total,
        0 <= i <= total,
        shards_unambiguous(data, total),
    ensures
        joined(spec_shards(data, total).take(i)) == data.subrange(0, shard_bound(data.len() as int, total as int, i)),
    decreases i,
{
    let len = data.len() as int;
    let s = spec_shards(data, total);
    if i == 0 {
        assert(s.take(0) =~= Seq::<Seq<u8>>::empty());
        assert(data.subrange(0, 0) =~= Seq::<u8>::empty());
    } else {
        lemma_joined_prefix(data, total, i - 1);
        lemma_next_bound(len, total as int, i - 1);
        assert(s.take(i).drop_last() =~= s.take(i - 1));
        assert(s.take(i).last() == shard_at(data, total, i - 1));
        let lo = shard_bound(len, total as int, i - 1);
        let hi = shard_bound(len, total as int, i);
        if lo < len {
            assert(!is_padding(shard_at(data, total, i - 1)));
            assert(data.subrange(0, lo) + data.subrange(lo, hi) =~= data.subrange(0, hi));
        } else {
            assert(is_padding(shard_at(data, total, i - 1)));
            assert(data.subrange(0, lo) + Seq::<u8>::empty() =~= data.subrange(0, hi));
        }
    }
}

proof fn lemma_last_bound(len: nat, total: nat)
    requires
        0 < total,
    ensures
        shard_bound(len as int, total as int, total as int) == len,
{
    let q = len as int / total as int;
    let r = len as int % total as int;
    vstd::arithmetic::div_mod::lemma_fundamental_div_mod(len as int, total as int);
    assert(0 <= r < total);
    assert(q >= 0) by {
        vstd::arithmetic::div_mod::lemma_div_pos_is_pos(len as int, total as int);
    }
    assert(len == total * q + r);
    let b = shard_base(len as int, total as int);
    if q >= 1 {
        assert(b == q);
        assert(total * b + r == len);
    } else {
        assert(q == 0);
        assert(total * q == 0) by (nonlinear_arith) requires q == 0;
        assert(b == 1);
        assert(total * b == total) by (nonlinear_arith) requires b == 1;
        assert(total * b + r >= len);
    }
}

/// Law: splitting data into shards and reassembling them gives the data
/// back, whenever at most `total` shards are needed and no shard that carries
/// data is the single byte `[0]` (which reassembly skips as padding).
pub proof fn lemma_reconstruct_inverts_create(data: Seq<u8>, total: nat, threshold: nat)
    requires
        total > 0 || data.len() == 0,
        threshold <= total,
        shards_unambiguous(data, total),
    ensures
        spec_shards(data, total).len() >= threshold,
        joined(spec_shards(data, total).take(total as int)) == data,
{
    let s = spec_shards(data, total);
    if total == 0 {
        assert(s.take(0) =~= Seq::<Seq<u8>>::empty());
        assert(data =~= Seq::<u8>::empty());
    } else {
        lemma_joined_prefix(data, total, total as int);
        lemma_last_bound(data.len(), total);
        assert(data.subrange(0, data.len() as int) =~= data);
    }
}

} // verus!
