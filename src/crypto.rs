//! Hashing, signing and random tokens, provided by outside crates.
use rand::random;
use vstd::prelude::*;

verus! {

/// Length of a content hash.
pub const HASH_BYTES: usize = 32;

/// Length of an identity (an ed25519 public key).
pub const PUBKEY_BYTES: usize = 32;

/// Length of a signature.
pub const SIGNATURE_BYTES: usize = 64;

#[verifier::external_type_specification]
#[verifier::external_body]
pub struct ExKeypair(solana_sdk::signature::Keypair);

/// The SHA-256 digest of a byte string.
pub uninterp spec fn sha256_of(data: Seq<u8>) -> Seq<u8>;

/// Whether `sig` is a valid ed25519 signature of `msg` by public key `pk`.
pub uninterp spec fn signature_valid(pk: Seq<u8>, msg: Seq<u8>, sig: Seq<u8>) -> bool;

/// Relies on solana_sdk::hash::hashv: SHA-256 over the concatenation of the
/// parts, 32 bytes.
#[verifier::external_body]
pub(crate) fn hashv_pair(a: &[u8], b: &[u8]) -> (r: Vec<u8>)
    ensures
        r@ == sha256_of(a@ + b@),
        r@.len() == HASH_BYTES,
{
    solana_sdk::hash::hashv(&[a, b]).to_bytes().to_vec()
}

/// Relies on solana_sdk::signature::Signature::verify: ed25519 verification,
/// a function of key, message and signature alone.
#[verifier::external_body]
pub(crate) fn verify_signature(sig: &[u8], pk: &[u8], msg: &[u8]) -> (r: bool)
    requires
        sig@.len() == SIGNATURE_BYTES,
    ensures
        r == signature_valid(pk@, msg@, sig@),
{
    let arr = <[u8; 64]>::try_from(sig).unwrap();
    solana_sdk::signature::Signature::from(arr).verify(pk, msg)
}

/// A signing identity: an ed25519 keypair together with its public key as
/// bytes. The key is read from the keypair when the identity is made; the
/// fields are private and never change afterwards.
pub struct SigningKey {
    keypair: solana_sdk::signature::Keypair,
    pubkey: Vec<u8>,
}

impl SigningKey {
    /// The identity's public key.
    pub closed spec fn pubkey_spec(&self) -> Seq<u8> {
        self.pubkey@
    }

    /// The signing identity of `keypair`.
    pub fn new(keypair: solana_sdk::signature::Keypair) -> (r: SigningKey)
        ensures
            r.pubkey_spec().len() == PUBKEY_BYTES,
    {
        let pubkey = keypair_pubkey(&keypair);
        SigningKey { keypair, pubkey }
    }

    /// The identity's 32-byte public key.
    pub fn pubkey(&self) -> (r: &Vec<u8>)
        ensures
            r@ == self.pubkey_spec(),
    {
        &self.pubkey
    }
}

/// Relies on Keypair's Signer::sign_message: an ed25519 signature of `msg`, 64
/// bytes, which verifies under the keypair's public key. `SigningKey::new`
/// read that public key from the same keypair into `pubkey`.
#[verifier::external_body]
pub(crate) fn sign_message(key: &SigningKey, msg: &[u8]) -> (r: Vec<u8>)
    ensures
        r@.len() == SIGNATURE_BYTES,
        signature_valid(key.pubkey_spec(), msg@, r@),
{
    solana_sdk::signer::Signer::sign_message(&key.keypair, msg).as_ref().to_vec()
}

/// Relies on Keypair's Signer::pubkey: the 32-byte public key.
#[verifier::external_body]
fn keypair_pubkey(keypair: &solana_sdk::signature::Keypair) -> (r: Vec<u8>)
    ensures
        r@.len() == PUBKEY_BYTES,
{
    solana_sdk::signer::Signer::pubkey(keypair).to_bytes().to_vec()
}

/// Relies on rand::random: 32 bytes drawn from the thread-local generator.
#[verifier::external_body]
pub(crate) fn random_token() -> (r: [u8; 32]) {
    random::<[u8; 32]>()
}

/// Relies on bincode::serialize of a fixed-size byte array: a tuple of bytes,
/// written one byte each with no length prefix, into a growable buffer, which
/// does not fail.
#[verifier::external_body]
pub(crate) fn serialize_token(token: &[u8; 32]) -> (r: Option<Vec<u8>>)
    ensures
        r is Some,
        r matches Some(v) ==> v@ == token@,
{
    bincode::serialize(token).ok()
}

/// The concatenation of two byte strings.
pub fn concat(a: &[u8], b: &[u8]) -> (r: Vec<u8>)
    ensures
        r@ == a@ + b@,
{
    let mut r: Vec<u8> = vstd::slice::slice_to_vec(a);
    let mut i: usize = 0;
    while i < b.len()
        invariant
            0 <= i <= b@.len(),
            r@ == a@ + b@.subrange(0, i as int),
        decreases b@.len() - i,
    {
        r.push(b[i]);
        i = i + 1;
        assert(b@.subrange(0, i as int) =~= b@.subrange(0, i - 1) .push(b@[i - 1]));
    }
    assert(b@.subrange(0, b@.len() as int) =~= b@);
    r
}

/// Whether two byte strings are equal.
pub fn bytes_eq(a: &[u8], b: &[u8]) -> (r: bool)
    ensures
        r == (a@ == b@),
{
    if a.len() != b.len() {
        return false;
    }
    let mut i: usize = 0;
    while i < a.len()
        invariant
            a@.len() == b@.len(),
            0 <= i <= a@.len(),
            forall|j: int| 0 <= j < i ==> a@[j] == b@[j],
        decreases a@.len() - i,
    {
        if a[i] != b[i] {
            return false;
        }
        i = i + 1;
    }
    assert(a@ =~= b@);
    true
}

} // verus!
