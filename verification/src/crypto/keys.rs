//! The threshold key set, made from a seed, and the operations on it.
//!
//! Each key value carries the seed and the polynomial degree it was made
//! from, so that what the key operations return can be stated as a function
//! of plain values. The key values are made only by the functions of this
//! module, from the seed and degree they carry.

use vstd::prelude::*;
use rand::SeedableRng;
use threshold_crypto::DecryptionShare as KeySetDecryptionShare;
use crate::crypto::threshold::{ciphertext_decodes, key_share_decodes, not_enough_shares_text};

verus! {

/// A secret key set and the seed and degree it was made from.
pub struct SeededSecretKeys {
    seed: [u8; 32],
    degree: usize,
    inner: threshold_crypto::SecretKeySet,
}

impl View for SeededSecretKeys {
    type V = (Seq<u8>, usize);

    closed spec fn view(&self) -> (Seq<u8>, usize) {
        (self.seed@, self.degree)
    }
}

/// The public key set of a [`SeededSecretKeys`], with the same seed and
/// degree.
pub struct SeededPublicKeys {
    seed: [u8; 32],
    degree: usize,
    inner: threshold_crypto::PublicKeySet,
}

impl View for SeededPublicKeys {
    type V = (Seq<u8>, usize);

    closed spec fn view(&self) -> (Seq<u8>, usize) {
        (self.seed@, self.degree)
    }
}

/// Secret key share number `index` of a [`SeededSecretKeys`].
pub struct SeededKeyShare {
    seed: [u8; 32],
    degree: usize,
    index: usize,
    inner: threshold_crypto::SecretKeyShare,
}

impl View for SeededKeyShare {
    type V = (Seq<u8>, usize, usize);

    closed spec fn view(&self) -> (Seq<u8>, usize, usize) {
        (self.seed@, self.degree, self.index)
    }
}

/// The 48-byte encoding (`PublicKey::to_bytes`) of the master public key of
/// the key set that `seed` and `degree` make.
pub uninterp spec fn seeded_public_key(seed: Seq<u8>, degree: usize) -> Seq<u8>;

/// Whether the ciphertext that bytes encode passes `Ciphertext::verify`.
pub uninterp spec fn ciphertext_verifies(ct: Seq<u8>) -> bool;

/// The encoded decryption share (`SecretKeyShare::decrypt_share`) that key
/// share `index` of the key set made from `seed` and `degree` gives for the
/// encoded ciphertext `ct`.
pub uninterp spec fn seeded_decryption_share(seed: Seq<u8>, degree: usize, index: usize, ct: Seq<u8>) -> Seq<u8>;

/// The bytes that `PublicKeySet::decrypt` of the key set made from `seed`
/// and `degree` gives for the encoded decryption shares `shares`, each with
/// its key share number, and the encoded ciphertext `ct`.
pub uninterp spec fn threshold_decryption(seed: Seq<u8>, degree: usize, shares: Seq<(usize, Seq<u8>)>, ct: Seq<u8>) -> Seq<u8>;

/// Shares and key share numbers as plain values.
pub open spec fn pairs_view(v: Seq<(usize, Vec<u8>)>) -> Seq<(usize, Seq<u8>)> {
    v.map_values(|p: (usize, Vec<u8>)| (p.0, p.1@))
}

/// No number occurs twice.
pub open spec fn distinct_ids(ids: Seq<usize>) -> bool {
    forall|a: int, b: int| 0 <= a < b < ids.len() ==> ids[a] != ids[b]
}

/// The decryption shares that the key shares numbered `ids` of the key set
/// made from `seed` and `degree` give for `ct`, each with its number.
pub open spec fn share_list(seed: Seq<u8>, degree: usize, ids: Seq<usize>, ct: Seq<u8>) -> Seq<(usize, Seq<u8>)> {
    ids.map_values(|i: usize| (i, seeded_decryption_share(seed, degree, i, ct)))
}

/// Any `degree + 1` distinct key shares of the key set made from `seed` and
/// `degree` together decrypt `ct` to `msg`.
pub open spec fn decrypts_to(seed: Seq<u8>, degree: usize, ct: Seq<u8>, msg: Seq<u8>) -> bool {
    forall|ids: Seq<usize>| ids.len() == degree + 1 && distinct_ids(ids)
        ==> #[trigger] threshold_decryption(seed, degree, share_list(seed, degree, ids, ct), ct) == msg
}

/// The secret key set of the given degree drawn from `StdRng::from_seed(seed)`
/// (`SecretKeySet::random`, which panics for degree `usize::MAX`, so that
/// degree is excluded). The same seed and degree always give the same key
/// set; the result carries both.
#[verifier::external_body]
pub(crate) fn seeded_secret_keys(seed: [u8; 32], degree: usize) -> (res: SeededSecretKeys)
    requires
        degree < usize::MAX,
    ensures
        res@ == (seed@, degree),
{
    let mut rng = <rand::rngs::StdRng as SeedableRng>::from_seed(seed);
    SeededSecretKeys { seed, degree, inner: threshold_crypto::SecretKeySet::random(degree, &mut rng) }
}

/// The public key set of a secret key set (`SecretKeySet::public_keys`).
#[verifier::external_body]
pub(crate) fn public_keys(keys: &SeededSecretKeys) -> (res: SeededPublicKeys)
    ensures
        res@ == keys@,
{
    SeededPublicKeys { seed: keys.seed, degree: keys.degree, inner: keys.inner.public_keys() }
}

/// Secret key share number `index` (`SecretKeySet::secret_key_share`).
#[verifier::external_body]
pub(crate) fn secret_key_share(keys: &SeededSecretKeys, index: usize) -> (res: SeededKeyShare)
    ensures
        res@ == (keys@.0, keys@.1, index),
{
    SeededKeyShare { seed: keys.seed, degree: keys.degree, index, inner: keys.inner.secret_key_share(index) }
}

/// The encoding of the master public key (`PublicKeySet::public_key`, then
/// `PublicKey::to_bytes`): the 48 bytes that `seeded_public_key` names.
#[verifier::external_body]
pub(crate) fn public_key_bytes(keys: &SeededPublicKeys) -> (res: Vec<u8>)
    ensures
        res@ == seeded_public_key(keys@.0, keys@.1),
        res@.len() == 48,
{
    keys.inner.public_key().to_bytes().to_vec()
}

/// Encrypts `msg` under the master public key with fresh randomness
/// (`PublicKey::encrypt`) and encodes the ciphertext (`bincode::serialize`,
/// which cannot fail on a ciphertext: a byte vector and two curve points).
/// Which ciphertext comes out is left open; every one is longer than `msg`
/// (two curve points and a length prefix besides the masked bytes), decodes, passes
/// `Ciphertext::verify`, and any `degree + 1` distinct key shares of the
/// key set decrypt it to `msg` (the threshold scheme's promise).
#[verifier::external_body]
pub(crate) fn encrypt_encoded(keys: &SeededPublicKeys, msg: &[u8]) -> (res: Result<Vec<u8>, Box<bincode::ErrorKind>>)
    ensures
        res is Ok,
        res matches Ok(ct) ==> ciphertext_decodes(ct@) && ciphertext_verifies(ct@),
        res matches Ok(ct) ==> ct@.len() > msg@.len(),
        res matches Ok(ct) ==> decrypts_to(keys@.0, keys@.1, ct@, msg@),
{
    bincode::serialize(&keys.inner.public_key().encrypt(msg))
}

/// This key share's decryption share of an encoded ciphertext
/// (`bincode::deserialize`, `SecretKeyShare::decrypt_share`, then
/// `bincode::serialize`). There is one exactly when the bytes decode to a
/// ciphertext that verifies; it is the share that `seeded_decryption_share`
/// names, and it decodes again.
#[verifier::external_body]
pub(crate) fn decryption_share(share: &SeededKeyShare, ct: &[u8]) -> (res: Option<Vec<u8>>)
    ensures
        res is Some <==> (ciphertext_decodes(ct@) && ciphertext_verifies(ct@)),
        res matches Some(data) ==> data@ == seeded_decryption_share(share@.0, share@.1, share@.2, ct@),
        res matches Some(data) ==> key_share_decodes(data@),
{
    let ciphertext: threshold_crypto::Ciphertext = bincode::deserialize(ct).ok()?;
    let dec_share = share.inner.decrypt_share(&ciphertext)?;
    bincode::serialize(&dec_share).ok()
}

/// Combines encoded decryption shares, each with its key share number, to
/// decrypt an encoded ciphertext (`PublicKeySet::decrypt`, after
/// `bincode::deserialize` of the ciphertext and of each share). `None` when
/// something does not decode. Otherwise the combination reads the first
/// `degree + 1` shares and fails exactly when there are fewer, with the text
/// of `Error::NotEnoughShares` (its check for a repeated number cannot fire:
/// the differences it inverts are taken over distinct numbers only, and it
/// gives no other error); its bytes are those that `threshold_decryption`
/// names.
#[verifier::external_body]
pub(crate) fn combine_decryption_shares(
    keys: &SeededPublicKeys,
    shares: &Vec<(usize, Vec<u8>)>,
    ct: &[u8],
) -> (res: Option<Result<Vec<u8>, String>>)
    ensures
        res is Some <==> (ciphertext_decodes(ct@)
            && forall|j: int| 0 <= j < shares@.len() ==> #[trigger] key_share_decodes(shares@[j].1@)),
        res matches Some(r) ==> (r is Ok <==> shares@.len() > keys@.1),
        res matches Some(Err(m)) ==> m@ == not_enough_shares_text(),
        res matches Some(Ok(b)) ==> b@ == threshold_decryption(keys@.0, keys@.1, pairs_view(shares@), ct@),
{
    let ciphertext: threshold_crypto::Ciphertext = bincode::deserialize(ct).ok()?;
    let decoded: Vec<(usize, KeySetDecryptionShare)> = shares.iter()
        .map(|e| bincode::deserialize(&e.1).map(|s| (e.0, s)))
        .collect::<Result<Vec<_>, _>>().ok()?;
    Some(keys.inner.decrypt(decoded.iter().map(|e| (e.0, &e.1)), &ciphertext).map_err(|e| e.to_string()))
}

} // verus!
