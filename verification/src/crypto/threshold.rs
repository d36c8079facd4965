//! Threshold encryption: one node's key share, encryption, decryption shares
//! and the combination of shares into a plaintext.

use vstd::prelude::*;
use vstd::string::StringExecFns;
use vstd::utf8::{valid_utf8, decode_utf8, encode_utf8};
use crate::text::{decimal, push_decimal};
use threshold_crypto::DecryptionShare as KeySetDecryptionShare;
use crate::crypto::keys::{
    SeededSecretKeys, SeededPublicKeys, SeededKeyShare, seeded_public_key, ciphertext_verifies,
    seeded_decryption_share, threshold_decryption, pairs_view, distinct_ids, share_list, decrypts_to,
    seeded_secret_keys, public_keys, secret_key_share, public_key_bytes, encrypt_encoded, decryption_share,
    combine_decryption_shares,
};

verus! {

// The outside types below are carried through the library as opaque values.

#[verifier::external_type_specification]
#[verifier::external_body]
pub struct ExSecretKeySet(threshold_crypto::SecretKeySet);

#[verifier::external_type_specification]
#[verifier::external_body]
pub struct ExPublicKeySet(threshold_crypto::PublicKeySet);

#[verifier::external_type_specification]
#[verifier::external_body]
pub struct ExSecretKeyShare(threshold_crypto::SecretKeyShare);

#[verifier::external_type_specification]
#[verifier::external_body]
pub struct ExCiphertext(threshold_crypto::Ciphertext);

#[verifier::external_type_specification]
#[verifier::external_body]
pub struct ExKeyDecryptionShare(KeySetDecryptionShare);

#[verifier::external_type_specification]
#[verifier::external_body]
pub struct ExBincodeErrorKind(bincode::ErrorKind);

/// The text of the error (its `Display`) that `bincode::deserialize::<Ciphertext>`
/// gives for bytes, or `None` when it accepts them.
pub uninterp spec fn ciphertext_decode_error(bytes: Seq<u8>) -> Option<Seq<char>>;

/// Whether bytes are the binary encoding of a ciphertext.
pub open spec fn ciphertext_decodes(bytes: Seq<u8>) -> bool {
    ciphertext_decode_error(bytes) is None
}

/// The text of the error (its `Display`) that
/// `bincode::deserialize::<DecryptionShare>` gives for bytes, or `None` when
/// it accepts them.
pub uninterp spec fn key_share_decode_error(bytes: Seq<u8>) -> Option<Seq<char>>;

/// Whether bytes are the binary encoding of a decryption share.
pub open spec fn key_share_decodes(bytes: Seq<u8>) -> bool {
    key_share_decode_error(bytes) is None
}

/// The text of the error (its `Display`) that `String::from_utf8` gives for
/// bytes that are not valid UTF-8.
pub uninterp spec fn utf8_error(bytes: Seq<u8>) -> Seq<char>;

/// The text of the error that combining too few decryption shares gives.
pub open spec fn not_enough_shares_text() -> Seq<char> {
    "Not enough signature shares"@
}

/// A ciphertext read back from its binary encoding (`bincode::deserialize`),
/// or the text of the decoder's error. It fails exactly on the bytes that
/// `ciphertext_decode_error` gives a text for, and always on empty bytes
/// (the first curve point cannot be read). The ciphertext itself is not
/// stated.
#[verifier::external_body]
fn decode_ciphertext(bytes: &[u8]) -> (res: Result<threshold_crypto::Ciphertext, String>)
    ensures
        res is Ok <==> ciphertext_decode_error(bytes@) is None,
        res matches Err(m) ==> ciphertext_decode_error(bytes@) == Some(m@),
        bytes@.len() == 0 ==> res is Err,
{
    bincode::deserialize(bytes).map_err(|e: Box<bincode::ErrorKind>| e.to_string())
}

/// A decryption share read back from its binary encoding
/// (`bincode::deserialize`), or the text of the decoder's error. It fails
/// exactly on the bytes that `key_share_decode_error` gives a text for. The
/// share itself is not stated.
#[verifier::external_body]
fn decode_key_share(bytes: &[u8]) -> (res: Result<KeySetDecryptionShare, String>)
    ensures
        res is Ok <==> key_share_decode_error(bytes@) is None,
        res matches Err(m) ==> key_share_decode_error(bytes@) == Some(m@),
{
    bincode::deserialize(bytes).map_err(|e: Box<bincode::ErrorKind>| e.to_string())
}

/// The text of a binary-encoding error (its `Display`); the text itself is
/// not stated.
#[verifier::external_body]
fn bincode_error_text(e: &Box<bincode::ErrorKind>) -> String {
    e.to_string()
}

/// Bytes read as UTF-8 text (`String::from_utf8`): text exactly when the
/// bytes are valid UTF-8, and then the characters they encode; otherwise
/// the error's text, which `utf8_error` names.
#[verifier::external_body]
fn utf8_text(bytes: Vec<u8>) -> (res: Result<String, String>)
    ensures
        res is Ok <==> valid_utf8(bytes@),
        res matches Ok(s) ==> s@ == decode_utf8(bytes@),
        res matches Err(m) ==> m@ == utf8_error(bytes@),
{
    String::from_utf8(bytes).map_err(|e: std::string::FromUtf8Error| e.to_string())
}

/// The lower-case hex digit of `n` (0..16).
pub open spec fn hex_digit(n: int) -> char {
    if n < 10 { digit_of_decimal(n) } else if n == 10 { 'a' } else if n == 11 { 'b' } else if n == 12 { 'c' }
    else if n == 13 { 'd' } else if n == 14 { 'e' } else { 'f' }
}

/// The decimal digit character of `n` (0..10).
pub open spec fn digit_of_decimal(n: int) -> char {
    crate::text::digit_char(n)
}

/// Lower-case hex text of bytes, two digits per byte, high nibble first.
pub open spec fn hex_lower(bytes: Seq<u8>) -> Seq<char>
    decreases bytes.len(),
{
    if bytes.len() == 0 {
        Seq::empty()
    } else {
        hex_lower(bytes.drop_last()) + seq![hex_digit(bytes.last() as int / 16), hex_digit(bytes.last() as int % 16)]
    }
}

/// Lower-case hex text of bytes (`hex::encode`).
#[verifier::external_body]
fn hex_encode(bytes: &[u8]) -> (res: String)
    ensures
        res@ == hex_lower(bytes@),
{
    hex::encode(bytes)
}

/// A decryption share as it travels between nodes: the number of the key
/// share that made it and its binary encoding.
pub struct DecryptionShare {
    pub shard_id: usize,
    pub share_data: Vec<u8>,
}

impl DecryptionShare {
    /// A copy of the share.
    pub fn duplicate(&self) -> (res: Self)
        ensures
            res.shard_id == self.shard_id,
            res.share_data@ == self.share_data@,
    {
        DecryptionShare { shard_id: self.shard_id, share_data: crate::filecoin::types::copy_bytes(&self.share_data) }
    }
}

/// Errors of threshold encryption.
pub enum CryptoError {
    EncryptionFailed(String),
    DecryptionFailed(String),
    InvalidShard,
}

impl CryptoError {
    /// The human-readable text of the error.
    pub open spec fn spec_text(&self) -> Seq<char> {
        match self {
            CryptoError::EncryptionFailed(m) => "Encryption failed: "@ + m@,
            CryptoError::DecryptionFailed(m) => "Decryption failed: "@ + m@,
            CryptoError::InvalidShard => "Invalid shard ID"@,
        }
    }

    /// Renders the error as text, e.g. `Decryption failed: <detail>`.
    pub fn text(&self) -> (res: String)
        ensures
            res@ == self.spec_text(),
    {
        match self {
            CryptoError::EncryptionFailed(m) => {
                let mut s = String::from_str("Encryption failed: ");
                s.append(m.as_str());
                s
            },
            CryptoError::DecryptionFailed(m) => {
                let mut s = String::from_str("Decryption failed: ");
                s.append(m.as_str());
                s
            },
            CryptoError::InvalidShard => String::from_str("Invalid shard ID"),
        }
    }
}

/// The text of the error for too few decryption shares.
pub open spec fn too_few_decryption_shares_text(threshold: nat, got: nat) -> Seq<char> {
    "Need "@ + decimal(threshold) + " shares, have "@ + decimal(got)
}

/// The text of the error for a ciphertext that yields no decryption share.
pub open spec fn no_share_text() -> Seq<char> {
    "Failed to create decryption share"@
}

/// The text `get_info` renders for the given parameters and public key
/// bytes.
pub open spec fn info_text(threshold: nat, total: nat, shard: nat, key: Seq<u8>) -> Seq<char> {
    "ThresholdCrypto: "@ + decimal(threshold) + "/"@ + decimal(total) + " threshold, shard "@
        + decimal(shard) + ", public_key: "@ + "\""@ + hex_lower(key) + "\""@
}


/// A decryption share as plain values: shard number and encoded bytes.
pub open spec fn share_view(s: DecryptionShare) -> (usize, Seq<u8>) {
    (s.shard_id, s.share_data@)
}

/// A list of decryption shares as plain values.
pub open spec fn shares_view(v: Seq<DecryptionShare>) -> Seq<(usize, Seq<u8>)> {
    v.map_values(|s: DecryptionShare| share_view(s))
}

/// No shard number occurs twice among the shares.
pub open spec fn distinct_shard_ids(m: Seq<(usize, Seq<u8>)>) -> bool {
    forall|a: int, b: int| 0 <= a < b < m.len() ==> m[a].0 != m[b].0
}

/// The position of the last share numbered `id`, or -1 if there is none.
pub open spec fn id_position(m: Seq<(usize, Seq<u8>)>, id: usize) -> int
    decreases m.len(),
{
    if m.len() == 0 {
        -1
    } else if m.last().0 == id {
        m.len() - 1
    } else {
        id_position(m.drop_last(), id)
    }
}

/// Adds share `e` to `m`, replacing the share with the same number in
/// place, or appending it if there is none.
pub open spec fn merge_share(m: Seq<(usize, Seq<u8>)>, e: (usize, Seq<u8>)) -> Seq<(usize, Seq<u8>)> {
    if id_position(m, e.0) >= 0 {
        m.update(id_position(m, e.0), e)
    } else {
        m.push(e)
    }
}

/// The shares with one entry per shard number: a later share replaces an
/// earlier one with the same number.
pub open spec fn merge_shares(s: Seq<(usize, Seq<u8>)>) -> Seq<(usize, Seq<u8>)>
    decreases s.len(),
{
    if s.len() == 0 {
        Seq::empty()
    } else {
        merge_share(merge_shares(s.drop_last()), s.last())
    }
}

proof fn lemma_id_position(m: Seq<(usize, Seq<u8>)>, id: usize)
    ensures
        -1 <= id_position(m, id) < m.len(),
        id_position(m, id) >= 0 ==> m[id_position(m, id)].0 == id,
        id_position(m, id) == -1 <==> forall|j: int| 0 <= j < m.len() ==> m[j].0 != id,
        distinct_shard_ids(m) ==> forall|j: int| 0 <= j < m.len() && m[j].0 == id ==> id_position(m, id) == j,
    decreases m.len(),
{
    if m.len() > 0 {
        lemma_id_position(m.drop_last(), id);
        if m.last().0 != id {
            assert forall|j: int| 0 <= j < m.len() - 1 implies m[j] == m.drop_last()[j] by {}
        }
    }
}

proof fn lemma_merge_shares(s: Seq<(usize, Seq<u8>)>)
    ensures
        distinct_shard_ids(merge_shares(s)),
        merge_shares(s).len() <= s.len(),
        forall|k: int| 0 <= k < merge_shares(s).len() ==> exists|j: int| 0 <= j < s.len() && s[j] == #[trigger] merge_shares(s)[k],
        forall|j: int| 0 <= j < s.len() ==> id_position(merge_shares(s), #[trigger] s[j].0) >= 0,
        distinct_shard_ids(s) ==> merge_shares(s) == s,
    decreases s.len(),
{
    if s.len() > 0 {
        let p = s.drop_last();
        let m = merge_shares(p);
        let e = s.last();
        let r = merge_shares(s);
        lemma_merge_shares(p);
        lemma_id_position(m, e.0);
        assert(r == merge_share(m, e));
        assert forall|k: int| 0 <= k < r.len() implies exists|j: int| 0 <= j < s.len() && s[j] == #[trigger] r[k] by {
            if k == id_position(m, e.0) || k == m.len() {
                assert(s[s.len() - 1] == r[k]);
            } else {
                let j = choose|j: int| 0 <= j < p.len() && p[j] == m[k];
                assert(s[j] == r[k]);
            }
        }
        assert forall|j: int| 0 <= j < s.len() implies id_position(r, #[trigger] s[j].0) >= 0 by {
            lemma_id_position(r, s[j].0);
            lemma_id_position(m, s[j].0);
            if j < s.len() - 1 {
                assert(p[j] == s[j]);
                let q = id_position(m, s[j].0);
                if q == id_position(m, e.0) && q >= 0 {
                    assert(r[q].0 == s[j].0);
                } else {
                    assert(r[q].0 == s[j].0);
                }
            } else {
                if id_position(m, e.0) >= 0 {
                    assert(r[id_position(m, e.0)].0 == e.0);
                } else {
                    assert(r[m.len() as int].0 == e.0);
                }
            }
        }
        if distinct_shard_ids(s) {
            assert(distinct_shard_ids(p));
            assert forall|j: int| 0 <= j < m.len() implies m[j].0 != e.0 by {
                assert(m[j] == s[j]);
            }
            assert(r =~= s);
        }
    }
}

proof fn lemma_merge_shorter(s: Seq<(usize, Seq<u8>)>, a: int, b: int)
    requires
        0 <= a < b < s.len(),
        s[a].0 == s[b].0,
    ensures
        merge_shares(s).len() < s.len(),
    decreases s.len(),
{
    let p = s.drop_last();
    let m = merge_shares(p);
    lemma_merge_shares(p);
    assert(merge_shares(s) == merge_share(m, s.last()));
    lemma_id_position(m, s.last().0);
    if b == s.len() - 1 {
        assert(p[a] == s[a]);
        assert(id_position(m, p[a].0) >= 0);
    } else {
        assert(p[a] == s[a] && p[b] == s[b]);
        lemma_merge_shorter(p, a, b);
    }
}

/// The position of the first share whose bytes do not decode, or -1 if all
/// do.
pub open spec fn first_undecodable(s: Seq<(usize, Seq<u8>)>) -> int
    decreases s.len(),
{
    if s.len() == 0 {
        -1
    } else if !key_share_decodes(s[0].1) {
        0
    } else if first_undecodable(s.skip(1)) < 0 {
        -1
    } else {
        first_undecodable(s.skip(1)) + 1
    }
}

proof fn lemma_first_undecodable(s: Seq<(usize, Seq<u8>)>)
    ensures
        -1 <= first_undecodable(s) < s.len(),
        first_undecodable(s) >= 0 ==> !key_share_decodes(s[first_undecodable(s)].1),
        forall|j: int| 0 <= j < first_undecodable(s) ==> #[trigger] key_share_decodes(s[j].1),
        first_undecodable(s) == -1 ==> forall|j: int| 0 <= j < s.len() ==> #[trigger] key_share_decodes(s[j].1),
    decreases s.len(),
{
    if s.len() > 0 && key_share_decodes(s[0].1) {
        let t = s.skip(1);
        lemma_first_undecodable(t);
        assert forall|j: int| 0 < j < s.len() implies s[j] == t[j - 1] by {}
        assert forall|j: int| 0 <= j < s.len() && (first_undecodable(s) == -1 || j < first_undecodable(s))
            implies #[trigger] key_share_decodes(s[j].1) by {
            if j > 0 {
                assert(s[j] == t[j - 1]);
            }
        }
    }
}

/// One node's view of a threshold key: any `threshold` of the
/// `total_shards` key shares can decrypt together; this node holds share
/// number `my_shard_id`.
pub struct ThresholdCrypto {
    pub threshold: usize,
    pub total_shards: usize,
    pub my_shard_id: usize,
    pub keys: KeyMaterial,
}

/// The key set behind a [`ThresholdCrypto`]: the secret key set, its public
/// key set and this node's key share, all of one seed and degree. Only
/// [`ThresholdCrypto::generate_keys`] makes one.
pub struct KeyMaterial {
    _secret_key_set: SeededSecretKeys,
    public_key_set: SeededPublicKeys,
    my_secret_share: SeededKeyShare,
}

impl KeyMaterial {
    /// The three parts come from one key set.
    #[verifier::type_invariant]
    closed spec fn one_key_set(&self) -> bool {
        &&& self.public_key_set@ == (self.my_secret_share@.0, self.my_secret_share@.1)
        &&& self._secret_key_set@ == self.public_key_set@
    }
}

impl View for KeyMaterial {
    /// The seed, the degree and the number of this node's key share.
    type V = (Seq<u8>, usize, usize);

    closed spec fn view(&self) -> (Seq<u8>, usize, usize) {
        self.my_secret_share@
    }
}

/// The seed that every node makes its key set from: 32 bytes of 42.
pub open spec fn shared_seed() -> Seq<u8> {
    Seq::new(32, |i: int| 42u8)
}

/// Inserts `(id, share)`, replacing the entry with the same id in place.
fn insert_key_share(shares: &mut Vec<(usize, Vec<u8>)>, id: usize, share: Vec<u8>)
    requires
        distinct_shard_ids(pairs_view(old(shares)@)),
    ensures
        distinct_shard_ids(pairs_view(final(shares)@)),
        pairs_view(final(shares)@) == merge_share(pairs_view(old(shares)@), (id, share@)),
{
    let ghost before = pairs_view(shares@);
    let ghost e = (id, share@);
    proof {
        lemma_id_position(before, id);
    }
    let mut i: usize = 0;
    while i < shares.len()
        invariant
            i <= shares@.len(),
            forall|j: int| 0 <= j < i ==> #[trigger] shares@[j].0 != id,
            shares@ == old(shares)@,
            before == pairs_view(old(shares)@),
            e == (id, share@),
            distinct_shard_ids(before),
            id_position(before, id) == -1 <==> forall|j: int| 0 <= j < before.len() ==> before[j].0 != id,
            distinct_shard_ids(before) ==> forall|j: int| 0 <= j < before.len() && before[j].0 == id ==> id_position(before, id) == j,
        decreases shares.len() - i,
    {
        if shares[i].0 == id {
            assert(before[i as int].0 == id);
            shares.set(i, (id, share));
            assert forall|j: int| 0 <= j < before.len() implies #[trigger] pairs_view(shares@)[j] == before.update(i as int, e)[j] by {
                assert(pairs_view(shares@)[j] == (shares@[j].0, shares@[j].1@));
                if j != i {
                    assert(shares@[j] == old(shares)@[j]);
                    assert(before[j] == (old(shares)@[j].0, old(shares)@[j].1@));
                }
            }
            assert(pairs_view(shares@) =~= before.update(i as int, e));
            assert forall|a: int, b: int| 0 <= a < b < pairs_view(shares@).len()
                implies pairs_view(shares@)[a].0 != pairs_view(shares@)[b].0 by {
                assert(before[a].0 != before[b].0);
            }
            return;
        }
        i = i + 1;
    }
    assert forall|j: int| 0 <= j < before.len() implies before[j].0 != id by {
        assert(shares@[j].0 != id);
    }
    shares.push((id, share));
    assert(pairs_view(shares@) =~= before.push(e));
}

impl ThresholdCrypto {
    /// The seed, degree and key share number of this node's key.
    pub open spec fn key_view(&self) -> (Seq<u8>, usize, usize) {
        self.keys@
    }

    /// The parameters agree with the key: the threshold is one more than the
    /// key's degree, the key share is share `my_shard_id`, which is below
    /// `total_shards`.
    pub open spec fn wf(&self) -> bool {
        &&& self.threshold == self.key_view().1 + 1
        &&& self.my_shard_id == self.key_view().2
        &&& self.my_shard_id < self.total_shards
    }

    /// The 48-byte master public key.
    pub open spec fn public_key(&self) -> Seq<u8> {
        seeded_public_key(self.key_view().0, self.key_view().1)
    }

    /// The encoded decryption share that key share `id` of this key set
    /// gives for the encoded ciphertext `ct`.
    pub open spec fn share_of(&self, id: usize, ct: Seq<u8>) -> Seq<u8> {
        seeded_decryption_share(self.key_view().0, self.key_view().1, id, ct)
    }

    /// `ct` is an encoded ciphertext of `plaintext`'s UTF-8 bytes under this
    /// key set: it decodes, verifies, and any threshold of distinct key
    /// shares decrypt it to those bytes.
    pub open spec fn encrypts(&self, ct: Seq<u8>, plaintext: Seq<char>) -> bool {
        &&& ciphertext_decodes(ct)
        &&& ciphertext_verifies(ct)
        &&& decrypts_to(self.key_view().0, self.key_view().1, ct, encode_utf8(plaintext))
    }

    /// What combining `shares` for the encoded ciphertext `ct` yields: the
    /// first `threshold` shares, merged by shard number, are combined and
    /// read as UTF-8; `None` when the ciphertext or one of those shares does
    /// not decode, when fewer shard numbers remain than the key needs, or
    /// when the bytes are not UTF-8.
    pub open spec fn combined_text(&self, ct: Seq<u8>, shares: Seq<(usize, Seq<u8>)>) -> Option<Seq<char>> {
        let first = shares.take(self.threshold as int);
        let merged = merge_shares(first);
        let bytes = threshold_decryption(self.key_view().0, self.key_view().1, merged, ct);
        if ciphertext_decodes(ct) && (forall|j: int| 0 <= j < first.len() ==> #[trigger] key_share_decodes(first[j].1))
            && merged.len() > self.key_view().1 && valid_utf8(bytes) {
            Some(decode_utf8(bytes))
        } else {
            None
        }
    }

    /// The full outcome of combining `shares` for the encoded ciphertext
    /// `ct`: the text of [`Self::combined_text`], or the text of the first
    /// failure met: the ciphertext's decoding error, then that of the first
    /// of the first `threshold` shares that does not decode, then too few
    /// distinct shard numbers, then invalid UTF-8.
    pub open spec fn combine_outcome(&self, ct: Seq<u8>, shares: Seq<(usize, Seq<u8>)>) -> Result<Seq<char>, Seq<char>> {
        let first = shares.take(self.threshold as int);
        let merged = merge_shares(first);
        let bytes = threshold_decryption(self.key_view().0, self.key_view().1, merged, ct);
        let bad = first_undecodable(first);
        if ciphertext_decode_error(ct) is Some {
            Err(ciphertext_decode_error(ct).unwrap())
        } else if bad >= 0 {
            Err(key_share_decode_error(first[bad].1).unwrap())
        } else if merged.len() <= self.key_view().1 {
            Err(not_enough_shares_text())
        } else if !valid_utf8(bytes) {
            Err(utf8_error(bytes))
        } else {
            Ok(decode_utf8(bytes))
        }
    }

    /// Generates the key set for `threshold`-of-`total_shards` decryption from
    /// the fixed seed that all nodes share, and keeps share `my_shard_id`.
    /// Fails with `InvalidShard` exactly when `my_shard_id >= total_shards`.
    pub fn generate_keys(threshold: usize, total_shards: usize, my_shard_id: usize) -> (res: Result<Self, CryptoError>)
        requires
            my_shard_id < total_shards ==> threshold >= 1,
        ensures
            my_shard_id >= total_shards <==> res is Err,
            res matches Err(e) ==> e is InvalidShard,
            res matches Ok(c) ==> c.threshold == threshold && c.total_shards == total_shards
                && c.my_shard_id == my_shard_id && c.wf()
                && c.key_view() == (shared_seed(), (threshold - 1) as usize, my_shard_id),
    {
        if my_shard_id >= total_shards {
            return Err(CryptoError::InvalidShard);
        }
        let seed: [u8; 32] = [42u8; 32];
        assert(seed@ =~= shared_seed());
        let secret_key_set = seeded_secret_keys(seed, threshold - 1);
        let public_key_set = public_keys(&secret_key_set);
        let my_secret_share = secret_key_share(&secret_key_set, my_shard_id);
        Ok(ThresholdCrypto {
            threshold,
            total_shards,
            my_shard_id,
            keys: KeyMaterial { _secret_key_set: secret_key_set, public_key_set, my_secret_share },
        })
    }

    /// Encrypts `message` and decrypts it again with this node's share
    /// alone. A lone share decrypts exactly when the threshold is one, and
    /// then gives `message` back; otherwise the combination fails with a
    /// `DecryptionFailed`.
    pub fn test_encryption_round_trip(&self, message: &str) -> (res: Result<String, CryptoError>)
        ensures
            res matches Err(e) ==> e is DecryptionFailed,
            self.wf() ==> (res is Ok <==> self.threshold == 1),
            self.wf() && self.threshold == 1 ==> (res matches Ok(s) && s@ == message@),
            self.key_view().1 >= 1 ==> (res matches Err(CryptoError::DecryptionFailed(m))
                && m@ == not_enough_shares_text()),
    {
        proof {
            use_type_invariant(&self.keys);
        }
        let ciphertext = match encrypt_encoded(&self.keys.public_key_set, message.as_bytes()) {
            Ok(c) => c,
            Err(e) => return Err(CryptoError::DecryptionFailed(bincode_error_text(&e))),
        };
        let dec_share = match decryption_share(&self.keys.my_secret_share, ciphertext.as_slice()) {
            Some(s) => s,
            None => return Err(CryptoError::DecryptionFailed(String::from_str("Failed to create decryption share"))),
        };
        let mut shares: Vec<(usize, Vec<u8>)> = Vec::new();
        shares.push((self.my_shard_id, dec_share));
        let ghost ids = seq![self.my_shard_id];
        let ghost kv = self.key_view();
        proof {
            if self.wf() && self.threshold == 1 {
                assert(pairs_view(shares@) =~= share_list(kv.0, kv.1, ids, ciphertext@));
                assert(distinct_ids(ids));
                assert(threshold_decryption(kv.0, kv.1, share_list(kv.0, kv.1, ids, ciphertext@), ciphertext@)
                    == encode_utf8(message@));
                vstd::utf8::encode_utf8_valid_utf8(message@);
                vstd::utf8::encode_utf8_decode_utf8(message@);
            }
        }
        let decrypted = match combine_decryption_shares(&self.keys.public_key_set, &shares, ciphertext.as_slice()) {
            Some(Ok(d)) => d,
            Some(Err(m)) => return Err(CryptoError::DecryptionFailed(m)),
            None => return Err(CryptoError::DecryptionFailed(String::from_str("Failed to decode decryption share"))),
        };
        match utf8_text(decrypted) {
            Ok(s) => Ok(s),
            Err(m) => Err(CryptoError::DecryptionFailed(m)),
        }
    }

    /// A one-line description: threshold, shard and the public key in hex.
    pub fn get_info(&self) -> (res: String)
        ensures
            res@ == info_text(self.threshold as nat, self.total_shards as nat, self.my_shard_id as nat, self.public_key()),
            self.public_key().len() == 48,
    {
        proof {
            use_type_invariant(&self.keys);
        }
        let key = public_key_bytes(&self.keys.public_key_set);
        let mut s = String::from_str("ThresholdCrypto: ");
        push_decimal(&mut s, self.threshold);
        s.append("/");
        push_decimal(&mut s, self.total_shards);
        s.append(" threshold, shard ");
        push_decimal(&mut s, self.my_shard_id);
        s.append(", public_key: ");
        s.append("\"");
        let hex = hex_encode(key.as_slice());
        s.append(hex.as_str());
        s.append("\"");
        assert(s@ == info_text(self.threshold as nat, self.total_shards as nat, self.my_shard_id as nat, key@));
        s
    }

    /// Encrypts `plaintext` under the master public key and encodes the
    /// ciphertext for the network. This always succeeds, and the bytes are a
    /// ciphertext of `plaintext` under this key set, longer than its UTF-8
    /// bytes. (An encoding failure
    /// would be an `EncryptionFailed`.)
    pub fn encrypt_message(&self, plaintext: &str) -> (res: Result<Vec<u8>, CryptoError>)
        ensures
            res matches Ok(bytes) && self.encrypts(bytes@, plaintext@),
            res matches Ok(bytes) ==> bytes@.len() > encode_utf8(plaintext@).len(),
    {
        proof {
            use_type_invariant(&self.keys);
        }
        match encrypt_encoded(&self.keys.public_key_set, plaintext.as_bytes()) {
            Ok(bytes) => Ok(bytes),
            Err(e) => Err(CryptoError::EncryptionFailed(bincode_error_text(&e))),
        }
    }

    /// This node's decryption share for an encoded ciphertext, tagged with
    /// this node's shard number. It is made exactly when the bytes decode to
    /// a ciphertext that verifies. Bytes that do not decode give a
    /// `DecryptionFailed` with the decoder's text; a ciphertext that does not
    /// verify gives `DecryptionFailed("Failed to create decryption share")`.
    pub fn create_decryption_share(&self, ciphertext_bytes: &[u8]) -> (res: Result<DecryptionShare, CryptoError>)
        ensures
            res is Ok <==> ciphertext_decodes(ciphertext_bytes@) && ciphertext_verifies(ciphertext_bytes@),
            res matches Ok(s) ==> s.shard_id == self.my_shard_id
                && s.share_data@ == self.share_of(self.key_view().2, ciphertext_bytes@)
                && key_share_decodes(s.share_data@),
            res matches Err(e) ==> e is DecryptionFailed,
            ciphertext_decodes(ciphertext_bytes@) && !ciphertext_verifies(ciphertext_bytes@)
                ==> (res matches Err(CryptoError::DecryptionFailed(m)) && m@ == no_share_text()),
            !ciphertext_decodes(ciphertext_bytes@) ==> (res matches Err(CryptoError::DecryptionFailed(m))
                && ciphertext_decode_error(ciphertext_bytes@) == Some(m@)),
            ciphertext_bytes@.len() == 0 ==> res is Err,
    {
        proof {
            use_type_invariant(&self.keys);
        }
        match decode_ciphertext(ciphertext_bytes) {
            Ok(_) => {},
            Err(m) => return Err(CryptoError::DecryptionFailed(m)),
        }
        match decryption_share(&self.keys.my_secret_share, ciphertext_bytes) {
            Some(share_data) => Ok(DecryptionShare { shard_id: self.my_shard_id, share_data }),
            None => Err(CryptoError::DecryptionFailed(String::from_str("Failed to create decryption share"))),
        }
    }

    /// Decrypts an encoded ciphertext from decryption shares. With fewer
    /// than `threshold` shares it fails with `DecryptionFailed("Need <t>
    /// shares, have <n>")`; otherwise the first `threshold` shares are
    /// decoded, one per shard number (a later share replaces an earlier one
    /// with the same number), combined and read as UTF-8: the result is
    /// [`Self::combined_text`], and each failure is a `DecryptionFailed`
    /// with the text that [`Self::combine_outcome`] gives.
    pub fn combine_shares_and_decrypt(
        &self,
        ciphertext_bytes: &[u8],
        shares: &[DecryptionShare],
    ) -> (res: Result<String, CryptoError>)
        ensures
            shares@.len() < self.threshold ==> (res matches Err(CryptoError::DecryptionFailed(m))
                && m@ == too_few_decryption_shares_text(self.threshold as nat, shares@.len())),
            shares@.len() >= self.threshold ==> (res is Ok <==> self.combined_text(ciphertext_bytes@, shares_view(shares@)) is Some),
            res matches Ok(s) ==> self.combined_text(ciphertext_bytes@, shares_view(shares@)) == Some(s@),
            shares@.len() >= self.threshold ==> match res {
                Ok(s) => self.combine_outcome(ciphertext_bytes@, shares_view(shares@)) == Ok::<Seq<char>, Seq<char>>(s@),
                Err(CryptoError::DecryptionFailed(m)) =>
                    self.combine_outcome(ciphertext_bytes@, shares_view(shares@)) == Err::<Seq<char>, Seq<char>>(m@),
                Err(_) => false,
            },
            res matches Err(e) ==> e is DecryptionFailed,
    {
        proof {
            use_type_invariant(&self.keys);
        }
        if shares.len() < self.threshold {
            let mut m = String::from_str("Need ");
            push_decimal(&mut m, self.threshold);
            m.append(" shares, have ");
            push_decimal(&mut m, shares.len());
            return Err(CryptoError::DecryptionFailed(m));
        }
        match decode_ciphertext(ciphertext_bytes) {
            Ok(_) => {},
            Err(m) => return Err(CryptoError::DecryptionFailed(m)),
        }
        let ghost all = shares_view(shares@);
        let ghost first = all.take(self.threshold as int);
        let mut share_map: Vec<(usize, Vec<u8>)> = Vec::new();
        let mut i: usize = 0;
        while i < self.threshold
            invariant
                i <= self.threshold <= shares@.len(),
                all == shares_view(shares@),
                first == all.take(self.threshold as int),
                ciphertext_decodes(ciphertext_bytes@),
                forall|j: int| 0 <= j < i ==> #[trigger] key_share_decodes(shares@[j].share_data@),
                distinct_shard_ids(pairs_view(share_map@)),
                pairs_view(share_map@) == merge_shares(all.take(i as int)),
            decreases self.threshold - i,
        {
            match decode_key_share(shares[i].share_data.as_slice()) {
                Ok(_) => {},
                Err(m) => {
                    assert(first[i as int] == share_view(shares@[i as int]));
                    assert(!key_share_decodes(first[i as int].1));
                    assert(first.len() == self.threshold);
                    proof {
                        lemma_first_undecodable(first);
                        assert forall|j: int| 0 <= j < i implies #[trigger] key_share_decodes(first[j].1) by {
                            assert(first[j] == share_view(shares@[j]));
                        }
                    }
                    return Err(CryptoError::DecryptionFailed(m));
                },
            }
            insert_key_share(&mut share_map, shares[i].shard_id, crate::filecoin::types::copy_bytes(&shares[i].share_data));
            proof {
                assert(all.take(i + 1).drop_last() =~= all.take(i as int));
                assert(all.take(i + 1).last() == share_view(shares@[i as int]));
            }
            i = i + 1;
        }
        let ghost merged = pairs_view(share_map@);
        proof {
            assert(all.take(i as int) =~= first);
            lemma_merge_shares(first);
            lemma_first_undecodable(first);
            assert forall|j: int| 0 <= j < share_map@.len() implies #[trigger] key_share_decodes(share_map@[j].1@) by {
                assert(merged[j] == (share_map@[j].0, share_map@[j].1@));
                let k = choose|k: int| 0 <= k < first.len() && first[k] == merged[j];
                assert(first[k] == share_view(shares@[k]));
            }
            assert forall|j: int| 0 <= j < first.len() implies #[trigger] key_share_decodes(first[j].1) by {
                assert(first[j] == share_view(shares@[j]));
            }
        }
        let decrypted = match combine_decryption_shares(&self.keys.public_key_set, &share_map, ciphertext_bytes) {
            Some(Ok(d)) => d,
            Some(Err(m)) => return Err(CryptoError::DecryptionFailed(m)),
            None => return Err(CryptoError::DecryptionFailed(String::from_str("Failed to decode decryption share"))),
        };
        match utf8_text(decrypted) {
            Ok(s) => Ok(s),
            Err(m) => Err(CryptoError::DecryptionFailed(m)),
        }
    }
}

/// Law: any `threshold` decryption shares of distinct key shares of this
/// node's key set, each made for a ciphertext of `plaintext` under that key
/// set, decrypt the ciphertext to `plaintext`; shares after the first
/// `threshold` are not read.
pub proof fn lemma_threshold_shares_decrypt(
    c: ThresholdCrypto,
    ct: Seq<u8>,
    plaintext: Seq<char>,
    shares: Seq<(usize, Seq<u8>)>,
)
    requires
        c.wf(),
        c.encrypts(ct, plaintext),
        shares.len() >= c.threshold,
        distinct_shard_ids(shares.take(c.threshold as int)),
        forall|j: int| 0 <= j < c.threshold ==> (#[trigger] shares[j]).1 == c.share_of(shares[j].0, ct)
            && key_share_decodes(shares[j].1),
    ensures
        c.combined_text(ct, shares) == Some(plaintext),
{
    let kv = c.key_view();
    let first = shares.take(c.threshold as int);
    lemma_merge_shares(first);
    let ids = first.map_values(|p: (usize, Seq<u8>)| p.0);
    assert(first =~= share_list(kv.0, kv.1, ids, ct)) by {
        assert forall|j: int| 0 <= j < first.len() implies first[j] == share_list(kv.0, kv.1, ids, ct)[j] by {
            assert(first[j] == shares[j]);
        }
    }
    assert(distinct_ids(ids));
    assert(threshold_decryption(kv.0, kv.1, share_list(kv.0, kv.1, ids, ct), ct) == encode_utf8(plaintext));
    assert forall|j: int| 0 <= j < first.len() implies #[trigger] key_share_decodes(first[j].1) by {
        assert(first[j] == shares[j]);
    }
    vstd::utf8::encode_utf8_valid_utf8(plaintext);
    vstd::utf8::encode_utf8_decode_utf8(plaintext);
}

/// Law: when two of the first `threshold` shares carry the same shard
/// number, fewer distinct shares remain than the key needs and the
/// combination yields nothing, whatever follows them.
pub proof fn lemma_repeated_shard_fails(c: ThresholdCrypto, ct: Seq<u8>, shares: Seq<(usize, Seq<u8>)>, a: int, b: int)
    requires
        c.wf(),
        0 <= a < b < c.threshold <= shares.len(),
        shares[a].0 == shares[b].0,
    ensures
        c.combined_text(ct, shares) is None,
{
    let first = shares.take(c.threshold as int);
    assert(first[a] == shares[a] && first[b] == shares[b]);
    lemma_merge_shorter(first, a, b);
}

/// Law: the combination reads only the first `threshold` shares: two lists
/// that agree on them yield the same result, and fail with the same text.
pub proof fn lemma_later_shares_unread(
    c: ThresholdCrypto,
    ct: Seq<u8>,
    shares: Seq<(usize, Seq<u8>)>,
    other: Seq<(usize, Seq<u8>)>,
)
    requires
        shares.len() >= c.threshold,
        other.len() >= c.threshold,
        shares.take(c.threshold as int) == other.take(c.threshold as int),
    ensures
        c.combined_text(ct, shares) == c.combined_text(ct, other),
        c.combine_outcome(ct, shares) == c.combine_outcome(ct, other),
{
}

} // verus!
