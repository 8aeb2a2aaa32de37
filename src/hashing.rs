use vstd::prelude::*;

verus! {

/// The fixed preamble of a signed message: `"\x19Ethereum Signed Message:\n"`.
pub open spec fn preamble() -> Seq<u8> {
    seq![
        0x19u8, 69, 116, 104, 101, 114, 101, 117, 109, 32, 83, 105, 103, 110, 101, 100, 32, 77,
        101, 115, 115, 97, 103, 101, 58, 10,
    ]
}

/// The ASCII decimal digits of `n`, most significant first, without leading zeros.
pub open spec fn decimal(n: nat) -> Seq<u8>
    decreases n,
{
    if n < 10 {
        seq![(48 + n) as u8]
    } else {
        decimal(n / 10).push((48 + n % 10) as u8)
    }
}

/// The framed message whose hash is signed: the preamble, the decimal length of
/// the payload, then the payload itself.
pub open spec fn framed(payload: Seq<u8>) -> Seq<u8> {
    preamble() + decimal(payload.len()) + payload
}

/// The Keccak-256 digest of a byte string.
pub uninterp spec fn keccak256_of(b: Seq<u8>) -> Seq<u8>;

/// The digest of a payload's canonical bytes.
pub open spec fn digest_of(payload: Seq<u8>) -> Seq<u8> {
    keccak256_of(framed(payload))
}

/// Relies on `near_sdk::env::keccak256_array`: the Keccak-256 digest of the
/// bytes, 32 bytes that depend on the bytes alone.
#[verifier::external_body]
fn keccak256(bytes: &Vec<u8>) -> (r: [u8; 32])
    ensures
        r@ == keccak256_of(bytes@),
{
    near_sdk::env::keccak256_array(bytes)
}

/// Appends the decimal digits of `n` to `out`.
fn push_decimal(out: &mut Vec<u8>, n: usize)
    ensures
        final(out)@ == old(out)@ + decimal(n as nat),
    decreases n,
{
    if n >= 10 {
        push_decimal(out, n / 10);
    }
    let d: u8 = (n % 10) as u8;
    out.push(48 + d);
    proof {
        if n >= 10 {
            assert(final(out)@ =~= old(out)@ + decimal(n as nat));
        } else {
            assert(final(out)@ =~= old(out)@ + decimal(n as nat));
        }
    }
}

/// Frames a payload: preamble, decimal length, payload.
pub fn frame_message(payload: &Vec<u8>) -> (r: Vec<u8>)
    ensures
        r@ == framed(payload@),
{
    let mut out: Vec<u8> = vec![
        0x19u8, 69, 116, 104, 101, 114, 101, 117, 109, 32, 83, 105, 103, 110, 101, 100, 32, 77,
        101, 115, 115, 97, 103, 101, 58, 10,
    ];
    assert(out@ =~= preamble());
    push_decimal(&mut out, payload.len());
    let ghost head = out@;
    let mut i: usize = 0;
    while i < payload.len()
        invariant
            i <= payload@.len(),
            out@ == head + payload@.subrange(0, i as int),
        decreases payload@.len() - i,
    {
        out.push(payload[i]);
        assert(payload@.subrange(0, i + 1) =~= payload@.subrange(0, i as int).push(payload@[i as int]));
        i = i + 1;
    }
    assert(payload@.subrange(0, i as int) =~= payload@);
    out
}

/// The digest of a payload's canonical (JSON) bytes: Keccak-256 over the framed message.
pub fn compute_erc191_hash(payload: &Vec<u8>) -> (r: [u8; 32])
    ensures
        r@ == digest_of(payload@),
{
    let message = frame_message(payload);
    keccak256(&message)
}

/// Hashing is deterministic: equal payload bytes give equal digests.
pub proof fn digest_deterministic(a: Seq<u8>, b: Seq<u8>)
    requires
        a == b,
    ensures
        digest_of(a) == digest_of(b),
{
}

} // verus!
