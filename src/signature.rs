use vstd::prelude::*;
use crate::keys::{CurveType, KeyView, PublicKey};
use crate::utils::vec_to_fixed;

verus! {

/// Whether an Ed25519 signature over a message verifies against a 32-byte key.
pub uninterp spec fn ed25519_valid(signature: Seq<u8>, message: Seq<u8>, key: Seq<u8>) -> bool;

/// The 64-byte secp256k1 key recovered from a 32-byte hash, a 64-byte
/// signature and its recovery byte, rejecting malleable signatures; `None`
/// where nothing is recovered.
pub uninterp spec fn ecrecover_of(hash: Seq<u8>, signature: Seq<u8>, v: u8) -> Option<Seq<u8>>;

/// Relies on `near_sdk::env::ed25519_verify`: whether the signature verifies,
/// a function of the three byte strings alone.
#[verifier::external_body]
fn ed25519_verify(signature: &[u8; 64], message: &[u8; 32], key: &[u8; 32]) -> (r: bool)
    ensures
        r == ed25519_valid(signature@, message@, key@),
{
    near_sdk::env::ed25519_verify(signature, message, key)
}

/// Relies on `near_sdk::env::ecrecover` with the malleability check on: the
/// recovered key, a function of its arguments alone. A recovery byte above 3
/// makes it panic, so it is left out.
#[verifier::external_body]
fn ecrecover(hash: &[u8; 32], signature: &[u8; 64], v: u8) -> (r: Option<[u8; 64]>)
    requires
        v < 4,
    ensures
        r is Some <==> ecrecover_of(hash@, signature@, v) is Some,
        r matches Some(k) ==> ecrecover_of(hash@, signature@, v) == Some(k@),
{
    near_sdk::env::ecrecover(hash, signature, v, true)
}

/// Whether `signature` signs `digest` under `key`. An Ed25519 signature is 64
/// bytes over a 32-byte key; a secp256k1 signature is 64 bytes and a recovery
/// byte below 4, and must recover the 64-byte key.
pub open spec fn signature_valid(key: KeyView, digest: Seq<u8>, signature: Seq<u8>) -> bool {
    match key.0 {
        CurveType::Ed25519 => key.1.len() == 32 && signature.len() == 64 && ed25519_valid(
            signature,
            digest,
            key.1,
        ),
        CurveType::Secp256k1 => key.1.len() == 64 && signature.len() == 65 && signature[64] < 4
            && ecrecover_of(
            digest,
            signature.subrange(0, 64),
            signature[64],
        ) == Some(key.1),
    }
}

/// The first `n` bytes of `b`.
fn prefix_bytes(b: &Vec<u8>, n: usize) -> (r: Vec<u8>)
    requires
        n <= b@.len(),
    ensures
        r@ == b@.subrange(0, n as int),
{
    let mut out: Vec<u8> = Vec::new();
    let mut i: usize = 0;
    while i < n
        invariant
            i <= n <= b@.len(),
            out@ == b@.subrange(0, i as int),
        decreases n - i,
    {
        out.push(b[i]);
        assert(b@.subrange(0, i + 1) =~= b@.subrange(0, i as int).push(b@[i as int]));
        i = i + 1;
    }
    out
}

/// Whether the key's bytes are the bytes of the array.
fn matches_array(key: &PublicKey, a: &[u8; 64]) -> (r: bool)
    ensures
        r == (key.data@ == a@),
{
    if key.data.len() != 64 {
        return false;
    }
    let mut i: usize = 0;
    while i < 64
        invariant
            i <= 64,
            key.data@.len() == 64,
            a@.len() == 64,
            forall|j: int| 0 <= j < i ==> key.data@[j] == a@[j],
        decreases 64 - i,
    {
        if key.data[i] != a[i] {
            return false;
        }
        i = i + 1;
    }
    assert(key.data@ =~= a@);
    true
}

/// Checks a signature over a digest against a key of either curve family.
pub fn verify_signature(key: &PublicKey, digest: &[u8; 32], signature: &Vec<u8>) -> (r: bool)
    ensures
        r == signature_valid(key@, digest@, signature@),
{
    match key.curve {
        CurveType::Ed25519 => {
            if key.data.len() != 32 || signature.len() != 64 {
                return false;
            }
            let k: [u8; 32] = vec_to_fixed(prefix_bytes(&key.data, 32));
            let s: [u8; 64] = vec_to_fixed(prefix_bytes(signature, 64));
            assert(k@ =~= key.data@);
            assert(s@ =~= signature@);
            ed25519_verify(&s, digest, &k)
        },
        CurveType::Secp256k1 => {
            if key.data.len() != 64 || signature.len() != 65 {
                return false;
            }
            let s: [u8; 64] = vec_to_fixed(prefix_bytes(signature, 64));
            let v: u8 = signature[64];
            if v >= 4 {
                return false;
            }
            match ecrecover(digest, &s, v) {
                Some(recovered) => {
                    let same = matches_array(key, &recovered);
                    same
                },
                None => false,
            }
        },
    }
}

} // verus!
