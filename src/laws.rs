use vstd::prelude::*;
use crate::error::{ErrorKind, ProxyError};
use crate::flows::{EphemeralAssignPayload, WithdrawEphemeral};
use crate::intents::{all_of_kind, DefuseIntents, IntentKind};
use crate::keys::KeyView;
use crate::registry::{IntentsProxyMpcContract, PortfolioId};

verus! {

/// A nonce authorizes at most once: after an owner's nonce was committed, every
/// later authorization of that owner with that nonce fails as stale, which is
/// an authorization error.
pub proof fn lemma_nonce_single_use(
    s0: IntentsProxyMpcContract,
    s1: IntentsProxyMpcContract,
    owner: KeyView,
    nonce: u64,
    digest: Seq<u8>,
    signature: Seq<u8>,
    id: PortfolioId,
)
    requires
        s0.owners().contains_key(owner),
        s0.nonce_committed(s1, owner, nonce),
    ensures
        s1.authorization_outcome(owner, nonce, digest, signature, id) == Err::<(), ProxyError>(
            ProxyError::StaleNonce,
        ),
        ProxyError::StaleNonce.kind_spec() == ErrorKind::Authorization,
{
}

/// Replaying a delegation that succeeded fails as stale, whatever signature
/// comes with it, and any other authorization of the owner with that nonce
/// fails the same way.
pub proof fn lemma_assign_replay_rejected(
    s0: IntentsProxyMpcContract,
    s1: IntentsProxyMpcContract,
    payload: EphemeralAssignPayload,
    signed: Seq<u8>,
    signature: Seq<u8>,
    agent: KeyView,
    portfolio_id: PortfolioId,
    signature2: Seq<u8>,
    digest2: Seq<u8>,
    id2: PortfolioId,
)
    requires
        s0.assign_outcome(payload, signed, signature, portfolio_id) is Ok,
        s0.assigned(s1, payload, agent, portfolio_id),
    ensures
        s1.assign_outcome(payload, signed, signature2, portfolio_id) == Err::<(), ProxyError>(
            ProxyError::StaleNonce,
        ),
        s1.authorization_outcome(payload.owner_pubkey@, payload.nonce, digest2, signature2, id2)
            == Err::<(), ProxyError>(ProxyError::StaleNonce),
{
}

/// Replaying a withdrawal that succeeded fails: as stale, an authorization
/// error, whenever it again brings one payload per intent.
pub proof fn lemma_withdraw_replay_rejected(
    s0: IntentsProxyMpcContract,
    s1: IntentsProxyMpcContract,
    payload: WithdrawEphemeral,
    signed: Seq<u8>,
    signature: Seq<u8>,
    n_payloads: nat,
    signature2: Seq<u8>,
    n_payloads2: nat,
)
    requires
        s0.withdraw_outcome(payload, signed, signature, n_payloads) is Ok,
        s0.nonce_committed(s1, payload.owner_pubkey@, payload.nonce),
    ensures
        s1.withdraw_outcome(payload, signed, signature2, n_payloads2) is Err,
        n_payloads2 == n_payloads ==> s1.withdraw_outcome(payload, signed, signature2, n_payloads2)
            == Err::<(), ProxyError>(ProxyError::StaleNonce),
{
}

proof fn lemma_counter_follows(
    states: Seq<IntentsProxyMpcContract>,
    keys: Seq<KeyView>,
    ids: Seq<PortfolioId>,
    k: int,
)
    requires
        states.len() == ids.len() + 1,
        keys.len() == ids.len(),
        states[0].counter() == 0,
        forall|i: int|
            0 <= i < ids.len() ==> (#[trigger] states[i]).created(states[i + 1], keys[i], ids[i]),
        0 <= k <= ids.len(),
    ensures
        states[k].counter() == k,
    decreases k,
{
    if k > 0 {
        lemma_counter_follows(states, keys, ids, k - 1);
        assert(states[k - 1].created(states[k], keys[k - 1], ids[k - 1]));
    }
}

/// Creating portfolios one after another from a fresh state gives the ids
/// 1, 2, 3, ...: distinct and strictly increasing.
pub proof fn lemma_sequential_ids(
    states: Seq<IntentsProxyMpcContract>,
    keys: Seq<KeyView>,
    ids: Seq<PortfolioId>,
)
    requires
        states.len() == ids.len() + 1,
        keys.len() == ids.len(),
        states[0].counter() == 0,
        forall|i: int|
            0 <= i < ids.len() ==> (#[trigger] states[i]).created(states[i + 1], keys[i], ids[i]),
    ensures
        forall|i: int| 0 <= i < ids.len() ==> #[trigger] ids[i] == i + 1,
        forall|i: int, j: int| 0 <= i < j < ids.len() ==> #[trigger] ids[i] < #[trigger] ids[j],
{
    assert forall|i: int| 0 <= i < ids.len() implies #[trigger] ids[i] == i + 1 by {
        lemma_counter_follows(states, keys, ids, i);
        assert(states[i].created(states[i + 1], keys[i], ids[i]));
    }
}

/// An agent key that is not bound to a portfolio cannot rebalance it: the call
/// fails, and with an authorization error whenever the batch itself is allowed.
pub proof fn lemma_unbound_agent_rejected(
    s: IntentsProxyMpcContract,
    agent: KeyView,
    portfolio_id: PortfolioId,
    intents: DefuseIntents,
)
    requires
        !(s.agents().contains_key(agent) && s.agents()[agent] == portfolio_id),
    ensures
        s.balance_outcome(agent, portfolio_id, intents) is Err,
        all_of_kind(intents.intents@, IntentKind::TokenDiff) ==> (s.balance_outcome(
            agent,
            portfolio_id,
            intents,
        ) matches Err(e) && e.kind_spec() == ErrorKind::Authorization),
{
}

/// A rebalance batch with one intent that is not a token diff is rejected
/// whole, whatever the other intents are.
pub proof fn lemma_rebalance_rejects_mixed(
    s: IntentsProxyMpcContract,
    agent: KeyView,
    portfolio_id: PortfolioId,
    intents: DefuseIntents,
    i: int,
)
    requires
        0 <= i < intents.intents@.len(),
        intents.intents@[i].kind_spec() != IntentKind::TokenDiff,
    ensures
        s.balance_outcome(agent, portfolio_id, intents) is Err,
{
}

/// A withdrawal batch with one intent that is not a fungible withdrawal is
/// rejected whole, before any authorization.
pub proof fn lemma_withdraw_rejects_mixed(
    s: IntentsProxyMpcContract,
    payload: WithdrawEphemeral,
    signed: Seq<u8>,
    signature: Seq<u8>,
    n_payloads: nat,
    i: int,
)
    requires
        0 <= i < payload.defuse_intents.intents@.len(),
        payload.defuse_intents.intents@[i].kind_spec() != IntentKind::FtWithdraw,
    ensures
        s.withdraw_outcome(payload, signed, signature, n_payloads) == Err::<(), ProxyError>(
            ProxyError::IntentTypeNotAllowed,
        ),
{
}

} // verus!
