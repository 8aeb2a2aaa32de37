use vstd::prelude::*;
use vstd::string::*;

verus! {

/// The curve family of a public key.
#[derive(Clone, Copy, Debug, PartialEq, Eq, Structural)]
pub enum CurveType {
    Ed25519,
    Secp256k1,
}

/// A public key: its curve and its raw key bytes (without the curve tag).
#[derive(Clone, Debug)]
pub struct PublicKey {
    pub curve: CurveType,
    pub data: Vec<u8>,
}

/// The mathematical value of a key.
pub type KeyView = (CurveType, Seq<u8>);

impl View for PublicKey {
    type V = KeyView;

    open spec fn view(&self) -> KeyView {
        (self.curve, self.data@)
    }
}

/// The textual tag of a curve, as it stands in front of an encoded key.
pub open spec fn curve_prefix(c: CurveType) -> Seq<char> {
    match c {
        CurveType::Ed25519 => "ed25519:"@,
        CurveType::Secp256k1 => "secp256k1:"@,
    }
}

/// The base58 text of a byte string.
pub uninterp spec fn bs58_of(b: Seq<u8>) -> Seq<char>;

/// The textual form of a key: its curve tag followed by the base58 text of its bytes.
pub open spec fn key_text(k: KeyView) -> Seq<char> {
    curve_prefix(k.0) + bs58_of(k.1)
}

/// Relies on `bs58::encode(..).into_string()`: the base58 text of the bytes,
/// a function of the bytes alone.
#[verifier::external_body]
fn bs58_encode(data: &Vec<u8>) -> (r: String)
    ensures
        r@ == bs58_of(data@),
{
    bs58::encode(data).into_string()
}

impl PublicKey {
    /// A key with the same curve and bytes.
    pub fn copy(&self) -> (r: PublicKey)
        ensures
            r@ == self@,
    {
        let mut data: Vec<u8> = Vec::new();
        let mut i: usize = 0;
        while i < self.data.len()
            invariant
                i <= self.data@.len(),
                data@ == self.data@.subrange(0, i as int),
            decreases self.data@.len() - i,
        {
            data.push(self.data[i]);
            i = i + 1;
        }
        assert(data@ =~= self.data@);
        PublicKey { curve: self.curve, data }
    }

    /// Whether two keys have the same curve and the same bytes.
    pub fn same_as(&self, other: &PublicKey) -> (r: bool)
        ensures
            r == (self@ == other@),
    {
        if self.curve != other.curve || self.data.len() != other.data.len() {
            return false;
        }
        let mut i: usize = 0;
        while i < self.data.len()
            invariant
                i <= self.data@.len(),
                self.data@.len() == other.data@.len(),
                self.data@.subrange(0, i as int) == other.data@.subrange(0, i as int),
            decreases self.data@.len() - i,
        {
            if self.data[i] != other.data[i] {
                assert(self.data@[i as int] != other.data@[i as int]);
                assert(self.data@ != other.data@);
                return false;
            }
            assert(self.data@.subrange(0, i + 1) =~= self.data@.subrange(0, i as int).push(self.data@[i as int]));
            assert(other.data@.subrange(0, i + 1) =~= other.data@.subrange(0, i as int).push(other.data@[i as int]));
            i = i + 1;
        }
        assert(self.data@ =~= self.data@.subrange(0, i as int));
        assert(other.data@ =~= other.data@.subrange(0, i as int));
        true
    }
}

/// The textual form of a key, used as the derivation path of signing requests.
pub fn public_key_to_string(public_key: &PublicKey) -> (r: String)
    ensures
        r@ == key_text(public_key@),
{
    let encoded = bs58_encode(&public_key.data);
    let mut out = match public_key.curve {
        CurveType::Ed25519 => String::from_str("ed25519:"),
        CurveType::Secp256k1 => String::from_str("secp256k1:"),
    };
    proof {
        reveal_strlit("ed25519:");
        reveal_strlit("secp256k1:");
    }
    out.append(encoded.as_str());
    out
}

} // verus!
