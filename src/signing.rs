use vstd::prelude::*;
use crate::error::ProxyError;
use crate::utils::vec_to_fixed;

verus! {

/// One yoctoNEAR-denominated NEAR.
pub const ONE_NEAR_YOCTO: u128 = 1_000_000_000_000_000_000_000_000;

/// The deposit attached to each signing sub-request, in NEAR.
pub const SIGN_DEPOSIT_NEAR: u128 = 1;

/// A request to the threshold-signing service: a 32-byte digest, the
/// derivation path and the key version.
#[derive(Clone, Debug)]
pub struct SignRequest {
    pub payload: [u8; 32],
    pub path: String,
    pub key_version: u32,
}

/// A signature returned by the signing service.
#[derive(Clone, Debug)]
pub struct SignResult {
    pub big_r: String,
    pub s: String,
    pub recovery_id: u8,
}

/// How one dispatched sub-request resolved.
#[derive(Clone, Debug)]
pub enum SignOutcome {
    /// It returned a signature.
    Signed(SignResult),
    /// It returned data that is no signature.
    Unparseable,
    /// It failed.
    Failed,
}

/// What the resolving continuation hands back: the signatures obtained, in
/// order of dispatch, and the deposit refund in yoctoNEAR.
#[derive(Clone, Debug)]
pub struct SignaturesReceived {
    pub signatures: Vec<SignResult>,
    pub refund: u128,
}

/// The signatures among the outcomes, in order.
pub open spec fn successes(outcomes: Seq<SignOutcome>) -> Seq<SignResult>
    decreases outcomes.len(),
{
    if outcomes.len() == 0 {
        Seq::empty()
    } else {
        let rest = successes(outcomes.drop_last());
        match outcomes.last() {
            SignOutcome::Signed(s) => rest.push(s),
            _ => rest,
        }
    }
}

/// The refund owed for `count` dispatched sub-requests, in yoctoNEAR.
pub open spec fn refund_for(count: nat) -> int {
    SIGN_DEPOSIT_NEAR * ONE_NEAR_YOCTO * count
}

/// Relies on `near_sdk::NearToken::from_near(near).checked_mul(count)`, read
/// back with `as_yoctonear`: `near` NEAR is `near * 10^24` yoctoNEAR (which
/// must fit, else `from_near` overflows), times `count`, or `None` where that
/// product does not fit in a `u128`.
#[verifier::external_body]
fn near_times(near: u128, count: u128) -> (r: Option<u128>)
    requires
        near * ONE_NEAR_YOCTO <= u128::MAX,
    ensures
        near * ONE_NEAR_YOCTO * count <= u128::MAX ==> r == Some(
            (near * ONE_NEAR_YOCTO * count) as u128,
        ),
        near * ONE_NEAR_YOCTO * count > u128::MAX ==> r is None,
{
    near_sdk::NearToken::from_near(near).checked_mul(count).map(|t| t.as_yoctonear())
}

/// Builds a signing request for a 32-byte digest and a derivation path, with key version 0.
pub fn create_sign_request_from_transaction(payload: Vec<u8>, path: &str) -> (r: SignRequest)
    requires
        payload@.len() == 32,
    ensures
        r.payload@ == payload@,
        r.path@ == path@,
        r.key_version == 0,
{
    SignRequest { payload: vec_to_fixed(payload), path: path.to_owned(), key_version: 0 }
}

/// The continuation that runs once every dispatched sub-request has resolved:
/// it keeps the signatures of the sub-requests that returned one, in order,
/// and refunds the deposit of every dispatched sub-request, whether or not it
/// succeeded. Fails only where that refund does not fit in a `u128`.
pub fn on_mpc_signatures_received(num_signatures: u64, results: Vec<SignOutcome>) -> (r: Result<
    SignaturesReceived,
    ProxyError,
>)
    ensures
        refund_for(num_signatures as nat) > u128::MAX ==> r == Err::<SignaturesReceived, ProxyError>(
            ProxyError::RefundOverflow,
        ),
        refund_for(num_signatures as nat) <= u128::MAX ==> (r matches Ok(v) && v.refund
            == refund_for(num_signatures as nat) && v.signatures@ == successes(results@)),
{
    let refund = match near_times(SIGN_DEPOSIT_NEAR, num_signatures as u128) {
        Some(v) => v,
        None => return Err(ProxyError::RefundOverflow),
    };
    let ghost all = results@;
    let total: usize = results.len();
    let mut rest = results;
    let mut signatures: Vec<SignResult> = Vec::new();
    let mut k: usize = 0;
    while rest.len() > 0
        invariant
            k + rest@.len() == all.len(),
            all.len() == total,
            rest@ == all.subrange(k as int, all.len() as int),
            signatures@ == successes(all.subrange(0, k as int)),
        decreases rest@.len(),
    {
        let outcome = rest.remove(0);
        assert(all.subrange(0, k + 1).drop_last() =~= all.subrange(0, k as int));
        match outcome {
            SignOutcome::Signed(s) => signatures.push(s),
            _ => {},
        }
        k = k + 1;
        assert(rest@ =~= all.subrange(k as int, all.len() as int));
    }
    assert(all.subrange(0, k as int) =~= all);
    Ok(SignaturesReceived { signatures, refund })
}

} // verus!
