//! Trusted boundary to the cryptographic crates: BLS threshold signatures
//! (`blsttc`), Ed25519 node and client signatures (`ed25519-dalek`) and the
//! SHA3-256 digest (`tiny-keccak`). Every key, signature and key set crosses
//! this boundary as plain bytes; what each call returns is stated over
//! uninterpreted names of those bytes.

use vstd::prelude::*;
use ed25519_dalek::{Signer, Verifier};
use tiny_keccak::Hasher;

verus! {

/// Length in bytes of a BLS public key.
pub const BLS_PK_LEN: usize = 48;

/// Length in bytes of a BLS signature or signature share.
pub const BLS_SIG_LEN: usize = 96;

/// Length in bytes of a BLS secret key share.
pub const BLS_SK_LEN: usize = 32;

/// Length in bytes of an Ed25519 public key.
pub const ED_PK_LEN: usize = 32;

/// Length in bytes of an Ed25519 secret key.
pub const ED_SK_LEN: usize = 32;

/// Length in bytes of an Ed25519 signature.
pub const ED_SIG_LEN: usize = 64;

/// Length in bytes of a SHA3-256 digest.
pub const HASH_LEN: usize = 32;

/// Whether the BLS signature `sig` by the public key `pk` over `msg` verifies.
pub uninterp spec fn bls_verifies(pk: Seq<u8>, sig: Seq<u8>, msg: Seq<u8>) -> bool;

/// Relies on blsttc's `PublicKey::verify`: whether a signature verifies is a
/// function of the key, the signature and the message alone. Bytes that do
/// not parse as a key or a signature verify nothing.
#[verifier::external_body]
pub fn bls_verify(pk: &Vec<u8>, sig: &Vec<u8>, msg: &Vec<u8>) -> (r: bool)
    ensures
        r == bls_verifies(pk@, sig@, msg@),
{
    if pk.len() != BLS_PK_LEN || sig.len() != BLS_SIG_LEN {
        return false;
    }
    let mut pk_arr = [0u8; BLS_PK_LEN];
    pk_arr.copy_from_slice(pk);
    let mut sig_arr = [0u8; BLS_SIG_LEN];
    sig_arr.copy_from_slice(sig);
    match (blsttc::PublicKey::from_bytes(pk_arr), blsttc::Signature::from_bytes(sig_arr)) {
        (Ok(key), Ok(signature)) => key.verify(&signature, msg),
        _ => false,
    }
}

/// Whether the bytes parse as a serialized BLS public key set.
pub uninterp spec fn pkset_valid(pks: Seq<u8>) -> bool;

/// The public key of the BLS public key set serialized as `pks`.
pub uninterp spec fn pkset_public_key(pks: Seq<u8>) -> Seq<u8>;

/// The threshold of the BLS public key set serialized as `pks`: that many
/// signature shares plus one combine into a full signature.
pub uninterp spec fn pkset_threshold(pks: Seq<u8>) -> int;

/// Relies on blsttc's `PublicKeySet::public_key`, a function of the key set
/// alone, reached from the set's big-endian serialization. Bytes that are
/// not a whole, non-empty row of 48-byte coefficients are rejected before
/// the parse: blsttc's own deserialization floor-divides and would otherwise
/// accept a degenerate, empty commitment.
#[verifier::external_body]
pub fn bls_pkset_public_key(pks: &Vec<u8>) -> (r: Option<Vec<u8>>)
    ensures
        r is Some <==> pkset_valid(pks@),
        r matches Some(k) ==> k@ == pkset_public_key(pks@) && k@.len() == BLS_PK_LEN,
{
    if pks.len() < BLS_PK_LEN || pks.len() % BLS_PK_LEN != 0 {
        return None;
    }
    match blsttc::PublicKeySet::from_bytes(pks.clone()) {
        Ok(set) => Some(set.public_key().to_bytes().to_vec()),
        Err(_) => None,
    }
}

/// Relies on blsttc's `PublicKeySet::threshold`: the degree of the set's
/// commitment polynomial, a function of the key set alone. The same length
/// guard as `bls_pkset_public_key` keeps the degenerate empty commitment,
/// whose degree would underflow, out.
#[verifier::external_body]
pub fn bls_pkset_threshold(pks: &Vec<u8>) -> (r: Option<usize>)
    ensures
        r is Some <==> pkset_valid(pks@),
        r matches Some(t) ==> t == pkset_threshold(pks@),
{
    if pks.len() < BLS_PK_LEN || pks.len() % BLS_PK_LEN != 0 {
        return None;
    }
    match blsttc::PublicKeySet::from_bytes(pks.clone()) {
        Ok(set) => Some(set.threshold()),
        Err(_) => None,
    }
}

/// Whether BLS signature share `sig` by share `index` of the key set
/// serialized as `pks` verifies over `msg`.
pub uninterp spec fn bls_share_verifies(pks: Seq<u8>, index: int, sig: Seq<u8>, msg: Seq<u8>) -> bool;

/// Relies on blsttc's `PublicKeyShare::verify` on the share key derived with
/// `PublicKeySet::public_key_share`: a function of the set, the index, the
/// share signature and the message alone.
#[verifier::external_body]
pub fn bls_share_verify(pks: &Vec<u8>, index: usize, sig: &Vec<u8>, msg: &Vec<u8>) -> (r: bool)
    ensures
        r == bls_share_verifies(pks@, index as int, sig@, msg@),
{
    if sig.len() != BLS_SIG_LEN {
        return false;
    }
    let mut sig_arr = [0u8; BLS_SIG_LEN];
    sig_arr.copy_from_slice(sig);
    match (blsttc::PublicKeySet::from_bytes(pks.clone()), blsttc::SignatureShare::from_bytes(sig_arr)) {
        (Ok(set), Ok(share)) => set.public_key_share(index).verify(&share, msg),
        _ => false,
    }
}

/// The signature share that the BLS secret key share serialized as `sk`
/// produces over `msg`; BLS signing is deterministic.
pub uninterp spec fn bls_share_sig_of(sk: Seq<u8>, msg: Seq<u8>) -> Seq<u8>;

/// Relies on blsttc's `SecretKeyShare::sign`, which is deterministic in the
/// share and the message. Returns nothing when the bytes do not parse as a
/// secret key share.
#[verifier::external_body]
pub fn bls_share_sign(sk: &Vec<u8>, msg: &Vec<u8>) -> (r: Option<Vec<u8>>)
    ensures
        r matches Some(s) ==> s@ == bls_share_sig_of(sk@, msg@) && s@.len() == BLS_SIG_LEN,
{
    if sk.len() != BLS_SK_LEN {
        return None;
    }
    let mut sk_arr = [0u8; BLS_SK_LEN];
    sk_arr.copy_from_slice(sk);
    match blsttc::SecretKeyShare::from_bytes(sk_arr) {
        Ok(share) => Some(share.sign(msg).to_bytes().to_vec()),
        Err(_) => None,
    }
}

/// Relies on blsttc's `PublicKeySet::combine_signatures`: interpolates the
/// given `(index, signature share)` samples into a full signature. Fails when
/// the set or a share does not parse or the shares are too few; the length
/// guard keeps the degenerate empty commitment out. For a threshold-0 set,
/// combining the single share with index 0 is the identity interpolation, so
/// the result verifies under the set's key over whatever that share signs:
/// the share key at index 0 of a degree-0 commitment is the set's own key.
#[verifier::external_body]
pub fn bls_combine_signatures(pks: &Vec<u8>, shares: &Vec<(usize, Vec<u8>)>) -> (r: Option<Vec<u8>>)
    ensures
        r matches Some(s) ==> s@.len() == BLS_SIG_LEN,
        (pkset_valid(pks@) && pkset_threshold(pks@) == 0 && shares@.len() == 1
            && shares@[0].0 == 0 && shares@[0].1@.len() == BLS_SIG_LEN
            && (exists|m: Seq<u8>| bls_share_verifies(pks@, 0, shares@[0].1@, m)))
            ==> r is Some,
        forall|m: Seq<u8>|
            (pkset_valid(pks@) && pkset_threshold(pks@) == 0 && shares@.len() == 1
                && shares@[0].0 == 0
                && bls_share_verifies(pks@, 0, shares@[0].1@, m)
                && r is Some)
            ==> bls_verifies(pkset_public_key(pks@), r.unwrap()@, m),
{
    if pks.len() < BLS_PK_LEN || pks.len() % BLS_PK_LEN != 0 {
        return None;
    }
    let set = blsttc::PublicKeySet::from_bytes(pks.clone()).ok()?;
    let mut samples: Vec<(usize, blsttc::SignatureShare)> = Vec::new();
    for (index, bytes) in shares.iter() {
        if bytes.len() != BLS_SIG_LEN {
            return None;
        }
        let mut arr = [0u8; BLS_SIG_LEN];
        arr.copy_from_slice(bytes);
        samples.push((*index, blsttc::SignatureShare::from_bytes(arr).ok()?));
    }
    let sig = set.combine_signatures(samples.iter().map(|(i, s)| (*i, s))).ok()?;
    Some(sig.to_bytes().to_vec())
}

/// A freshly generated BLS threshold key set, carried as plain bytes.
pub struct GeneratedKeySet {
    /// The serialized public key set.
    pub pk_set: Vec<u8>,
    /// The set's public key.
    pub public_key: Vec<u8>,
    /// Secret key share number 0 of the set.
    pub secret_key_share: Vec<u8>,
}

/// Relies on blsttc's `SecretKeySet::random` and its accessors: whatever
/// polynomial the generator draws, the returned public key set has the asked
/// threshold, its public key is the one the set derives — serialized as one
/// 48-byte commitment coefficient per polynomial degree — and share 0 is the
/// set's share number 0, all serialized with the crate's own `to_bytes`.
/// BLS sign/verify consistency ties share 0's signatures to share key 0: the
/// share key is the commitment evaluated where the secret share evaluates
/// the polynomial, so what share 0 signs, share key 0 verifies.
#[verifier::external_body]
pub fn bls_keyset_random(threshold: usize) -> (r: GeneratedKeySet)
    requires
        threshold < 1000,
    ensures
        pkset_valid(r.pk_set@),
        pkset_threshold(r.pk_set@) == threshold as int,
        r.public_key@ == pkset_public_key(r.pk_set@),
        r.public_key@.len() == BLS_PK_LEN,
        r.secret_key_share@.len() == BLS_SK_LEN,
        r.pk_set@.len() == BLS_PK_LEN * (threshold + 1),
        forall|m: Seq<u8>| bls_share_verifies(
            r.pk_set@, 0, bls_share_sig_of(r.secret_key_share@, m), m),
{
    let sk_set = blsttc::SecretKeySet::random(threshold, &mut rand::thread_rng());
    let pk_set = sk_set.public_keys();
    GeneratedKeySet {
        pk_set: pk_set.to_bytes(),
        public_key: pk_set.public_key().to_bytes().to_vec(),
        secret_key_share: sk_set.secret_key_share(0).to_bytes().to_vec(),
    }
}

/// Whether the Ed25519 signature `sig` by the public key `pk` over `msg`
/// verifies.
pub uninterp spec fn ed_verifies(pk: Seq<u8>, sig: Seq<u8>, msg: Seq<u8>) -> bool;

/// Relies on ed25519-dalek's `VerifyingKey::verify`: a function of the key,
/// the signature and the message alone. Bytes that do not parse as a key
/// verify nothing.
#[verifier::external_body]
pub fn ed_verify(pk: &Vec<u8>, sig: &Vec<u8>, msg: &Vec<u8>) -> (r: bool)
    ensures
        r == ed_verifies(pk@, sig@, msg@),
{
    if pk.len() != ED_PK_LEN || sig.len() != ED_SIG_LEN {
        return false;
    }
    let mut pk_arr = [0u8; ED_PK_LEN];
    pk_arr.copy_from_slice(pk);
    let mut sig_arr = [0u8; ED_SIG_LEN];
    sig_arr.copy_from_slice(sig);
    let signature = ed25519_dalek::Signature::from_bytes(&sig_arr);
    match ed25519_dalek::VerifyingKey::from_bytes(&pk_arr) {
        Ok(key) => key.verify(msg, &signature).is_ok(),
        Err(_) => false,
    }
}

/// The Ed25519 signature that the secret key `sk` produces over `msg`;
/// Ed25519 signing is deterministic.
pub uninterp spec fn ed_sig_of(sk: Seq<u8>, msg: Seq<u8>) -> Seq<u8>;

/// Relies on ed25519-dalek's `SigningKey::sign`, deterministic per RFC 8032,
/// and on RFC 8032's sign/verify consistency: the signature verifies under
/// the key that `SigningKey::verifying_key` derives from the same secret.
#[verifier::external_body]
pub fn ed_sign(sk: &Vec<u8>, msg: &Vec<u8>) -> (r: Vec<u8>)
    requires
        sk@.len() == ED_SK_LEN,
    ensures
        r@ == ed_sig_of(sk@, msg@),
        r@.len() == ED_SIG_LEN,
        ed_verifies(ed_public_of(sk@), r@, msg@),
{
    let mut sk_arr = [0u8; ED_SK_LEN];
    sk_arr.copy_from_slice(sk);
    let key = ed25519_dalek::SigningKey::from_bytes(&sk_arr);
    key.sign(msg).to_bytes().to_vec()
}

/// The Ed25519 public key that belongs to the secret key `sk`.
pub uninterp spec fn ed_public_of(sk: Seq<u8>) -> Seq<u8>;

/// Relies on ed25519-dalek's `SigningKey::verifying_key`, a function of the
/// secret key alone.
#[verifier::external_body]
pub fn ed_derive_public(sk: &Vec<u8>) -> (r: Vec<u8>)
    requires
        sk@.len() == ED_SK_LEN,
    ensures
        r@ == ed_public_of(sk@),
        r@.len() == ED_PK_LEN,
{
    let mut sk_arr = [0u8; ED_SK_LEN];
    sk_arr.copy_from_slice(sk);
    let key = ed25519_dalek::SigningKey::from_bytes(&sk_arr);
    key.verifying_key().to_bytes().to_vec()
}

/// The SHA3-256 digest of a byte string.
pub uninterp spec fn sha3_of(b: Seq<u8>) -> Seq<u8>;

/// Relies on tiny-keccak's `Sha3::v256` digest, a function of the input
/// bytes alone.
#[verifier::external_body]
pub fn sha3_256(b: &Vec<u8>) -> (r: Vec<u8>)
    ensures
        r@ == sha3_of(b@),
        r@.len() == HASH_LEN,
{
    let mut hasher = tiny_keccak::Sha3::v256();
    hasher.update(b);
    let mut out = [0u8; HASH_LEN];
    hasher.finalize(&mut out);
    out.to_vec()
}

/// Relies on rand's `random`: 32 bytes drawn from the thread-local generator.
/// Nothing is promised of their value.
#[verifier::external_body]
pub fn random_bytes32() -> (r: Vec<u8>)
    ensures
        r@.len() == 32,
{
    rand::random::<[u8; 32]>().to_vec()
}

} // verus!
